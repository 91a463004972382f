//! The lexer: turns source text into tokens.
//!
//! Its behaviour is stated by spec functions over the source characters and a
//! [`LexState`] (character index, line, column).  Spans are byte offsets into the
//! UTF-8 encoding of the source.

use vstd::prelude::*;
use crate::text::{
    ascii_digit, ascii_hex_digit, char_from_u32, hex_digit_value, hex_to_u32, is_alphabetic,
    is_alphanumeric, is_digit, is_hex_digit, is_scalar_value, hex_value, len_utf8, parse_hex_u32,
    push_str, string_from_chars, string_of, string_of_char, alphabetic, alphanumeric,
    utf8_len, utf8_total, lemma_utf8_total_step, lemma_utf8_total_mono,
};
use crate::token::{KindView, Span, Token, TokenKind};

verus! {

/// Where the lexer stands: index of the next character, and the line and column
/// reported for it.
pub struct LexState {
    pub idx: nat,
    pub line: nat,
    pub column: nat,
}

/// A token as the specification describes it: its kind, the character range it
/// covers and the line and column where it starts.
pub struct Lexeme {
    pub kind: KindView,
    pub start: nat,
    pub end: nat,
    pub line: nat,
    pub column: nat,
}

// ---------------------------------------------------------------------------
// Specification
// ---------------------------------------------------------------------------

pub open spec fn at(s: Seq<char>, i: nat) -> Option<char> {
    if i < s.len() {
        Some(s[i as int])
    } else {
        None
    }
}

/// Moves past one character (stays put at the end of the source).
pub open spec fn step(s: Seq<char>, st: LexState) -> LexState {
    if st.idx < s.len() {
        LexState { idx: st.idx + 1, line: st.line, column: st.column + 1 }
    } else {
        st
    }
}

pub open spec fn newline(st: LexState) -> LexState {
    LexState { idx: st.idx, line: st.line + 1, column: 1 }
}

/// Byte offset of character index `i`.
pub open spec fn byte_offset(s: Seq<char>, i: nat) -> nat {
    utf8_total(s.take(i as int))
}

/// Skips to the end of the line, stopping before the newline.
pub open spec fn skip_line_comment(s: Seq<char>, st: LexState) -> LexState
    decreases s.len() - st.idx,
{
    if st.idx < s.len() && s[st.idx as int] != '\n' {
        skip_line_comment(s, step(s, st))
    } else {
        st
    }
}

/// Skips a block comment whose opening delimiters are consumed, with `depth`
/// comments still open; comments nest.
pub open spec fn skip_block_comment(s: Seq<char>, st: LexState, depth: nat) -> LexState
    decreases s.len() - st.idx,
{
    if depth == 0 || st.idx >= s.len() {
        st
    } else {
        let c0 = s[st.idx as int];
        let c1 = at(s, st.idx + 1);
        if c0 == '/' && c1 == Some('*') {
            skip_block_comment(s, step(s, step(s, st)), depth + 1)
        } else if c0 == '*' && c1 == Some('/') {
            skip_block_comment(s, step(s, step(s, st)), (depth - 1) as nat)
        } else if c0 == '\n' {
            skip_block_comment(s, newline(step(s, st)), depth)
        } else {
            skip_block_comment(s, step(s, st), depth)
        }
    }
}

pub proof fn lemma_skip_line_comment(s: Seq<char>, st: LexState)
    requires
        st.idx <= s.len(),
    ensures
        st.idx <= skip_line_comment(s, st).idx <= s.len(),
        st.idx < s.len() && s[st.idx as int] != '\n' ==> st.idx < skip_line_comment(s, st).idx,
    decreases s.len() - st.idx,
{
    if st.idx < s.len() && s[st.idx as int] != '\n' {
        lemma_skip_line_comment(s, step(s, st));
    }
}

pub proof fn lemma_skip_block_comment(s: Seq<char>, st: LexState, depth: nat)
    requires
        st.idx <= s.len(),
    ensures
        st.idx <= skip_block_comment(s, st, depth).idx <= s.len(),
    decreases s.len() - st.idx,
{
    if depth == 0 || st.idx >= s.len() {
    } else {
        let c0 = s[st.idx as int];
        let c1 = at(s, st.idx + 1);
        if c0 == '/' && c1 == Some('*') {
            lemma_skip_block_comment(s, step(s, step(s, st)), depth + 1);
        } else if c0 == '*' && c1 == Some('/') {
            lemma_skip_block_comment(s, step(s, step(s, st)), (depth - 1) as nat);
        } else if c0 == '\n' {
            lemma_skip_block_comment(s, newline(step(s, st)), depth);
        } else {
            lemma_skip_block_comment(s, step(s, st), depth);
        }
    }
}

/// Skips spaces, tabs, carriage returns, newlines, line comments and block comments.
pub open spec fn skip_trivia(s: Seq<char>, st: LexState) -> LexState
    decreases s.len() - st.idx,
{
    if st.idx >= s.len() {
        st
    } else {
        let c = s[st.idx as int];
        if c == ' ' || c == '\t' || c == '\r' {
            skip_trivia(s, step(s, st))
        } else if c == '\n' {
            skip_trivia(s, newline(step(s, st)))
        } else if c == '/' && at(s, st.idx + 1) == Some('/') {
            proof {
                lemma_skip_line_comment(s, st);
            }
            skip_trivia(s, skip_line_comment(s, st))
        } else if c == '/' && at(s, st.idx + 1) == Some('*') {
            proof {
                lemma_skip_block_comment(s, step(s, step(s, st)), 1);
            }
            skip_trivia(s, skip_block_comment(s, step(s, step(s, st)), 1))
        } else {
            st
        }
    }
}

pub proof fn lemma_skip_trivia(s: Seq<char>, st: LexState)
    requires
        st.idx <= s.len(),
    ensures
        st.idx <= skip_trivia(s, st).idx <= s.len(),
        ({
            let r = skip_trivia(s, st);
            r.idx < s.len() ==> !(s[r.idx as int] == '/' && (at(s, r.idx + 1) == Some('/') || at(
                s,
                r.idx + 1,
            ) == Some('*')))
        }),
    decreases s.len() - st.idx,
{
    if st.idx >= s.len() {
    } else {
        let c = s[st.idx as int];
        if c == ' ' || c == '\t' || c == '\r' {
            lemma_skip_trivia(s, step(s, st));
        } else if c == '\n' {
            lemma_skip_trivia(s, newline(step(s, st)));
        } else if c == '/' && at(s, st.idx + 1) == Some('/') {
            lemma_skip_line_comment(s, st);
            lemma_skip_trivia(s, skip_line_comment(s, st));
        } else if c == '/' && at(s, st.idx + 1) == Some('*') {
            lemma_skip_block_comment(s, step(s, step(s, st)), 1);
            lemma_skip_trivia(s, skip_block_comment(s, step(s, step(s, st)), 1));
        }
    }
}

/// Advances while the next character is an ASCII digit.
pub open spec fn skip_digits(s: Seq<char>, st: LexState) -> LexState
    decreases s.len() - st.idx,
{
    if st.idx < s.len() && is_digit(s[st.idx as int]) {
        skip_digits(s, step(s, st))
    } else {
        st
    }
}

pub open spec fn is_ident_char(c: char) -> bool {
    c == '_' || alphanumeric(c)
}

/// Advances while the next character can continue an identifier.
pub open spec fn skip_ident(s: Seq<char>, st: LexState) -> LexState
    decreases s.len() - st.idx,
{
    if st.idx < s.len() && is_ident_char(s[st.idx as int]) {
        skip_ident(s, step(s, st))
    } else {
        st
    }
}

/// Advances while the next character is a hex digit.
pub open spec fn skip_hex(s: Seq<char>, st: LexState) -> LexState
    decreases s.len() - st.idx,
{
    if st.idx < s.len() && is_hex_digit(s[st.idx as int]) {
        skip_hex(s, step(s, st))
    } else {
        st
    }
}

/// The state of each scanner above never moves back and stays within the source.
pub proof fn lemma_skips(s: Seq<char>, st: LexState)
    requires
        st.idx <= s.len(),
    ensures
        st.idx <= skip_digits(s, st).idx <= s.len(),
        st.idx <= skip_ident(s, st).idx <= s.len(),
        st.idx <= skip_hex(s, st).idx <= s.len(),
        skip_ident(s, st).line == st.line,
    decreases s.len() - st.idx,
{
    if st.idx < s.len() {
        lemma_skips(s, step(s, st));
    }
}

/// The keyword spelled by `word`, if it is one.
pub open spec fn keyword_of(word: Seq<char>) -> Option<TokenKind> {
    if word == "import"@ { Some(TokenKind::Import) }
    else if word == "as"@ { Some(TokenKind::As) }
    else if word == "type"@ { Some(TokenKind::Type) }
    else if word == "abstract"@ { Some(TokenKind::Abstract) }
    else if word == "class"@ { Some(TokenKind::Class) }
    else if word == "extends"@ { Some(TokenKind::Extends) }
    else if word == "impl"@ { Some(TokenKind::Impl) }
    else if word == "for"@ { Some(TokenKind::For) }
    else if word == "in"@ { Some(TokenKind::In) }
    else if word == "fn"@ { Some(TokenKind::Fn) }
    else if word == "new"@ { Some(TokenKind::New) }
    else if word == "static"@ { Some(TokenKind::Static) }
    else if word == "virtual"@ { Some(TokenKind::Virtual) }
    else if word == "override"@ { Some(TokenKind::Override) }
    else if word == "trait"@ { Some(TokenKind::Trait) }
    else if word == "prop"@ { Some(TokenKind::Prop) }
    else if word == "get"@ { Some(TokenKind::Get) }
    else if word == "set"@ { Some(TokenKind::Set_) }
    else if word == "let"@ { Some(TokenKind::Let) }
    else if word == "if"@ { Some(TokenKind::If) }
    else if word == "else"@ { Some(TokenKind::Else) }
    else if word == "match"@ { Some(TokenKind::Match) }
    else if word == "loop"@ { Some(TokenKind::Loop) }
    else if word == "while"@ { Some(TokenKind::While) }
    else if word == "break"@ { Some(TokenKind::Break) }
    else if word == "continue"@ { Some(TokenKind::Continue) }
    else if word == "return"@ { Some(TokenKind::Return) }
    else if word == "super"@ { Some(TokenKind::Super) }
    else if word == "self"@ { Some(TokenKind::Self_) }
    else if word == "public"@ { Some(TokenKind::Public) }
    else if word == "protected"@ { Some(TokenKind::Protected) }
    else if word == "private"@ { Some(TokenKind::Private) }
    else if word == "mut"@ { Some(TokenKind::Mut) }
    else if word == "true"@ { Some(TokenKind::True) }
    else if word == "false"@ { Some(TokenKind::False) }
    else if word == "null"@ { Some(TokenKind::Null) }
    else if word == "Self"@ { Some(TokenKind::SelfType) }
    else if word == "_"@ { Some(TokenKind::Underscore) }
    else { None }
}

/// An identifier or keyword whose first character (at `start`) is consumed.
pub open spec fn scan_word(s: Seq<char>, st: LexState, start: nat) -> (KindView, LexState) {
    let st1 = skip_ident(s, st);
    let word = s.subrange(start as int, st1.idx as int);
    match keyword_of(word) {
        Some(k) => (KindView::Plain(k), st1),
        None => (KindView::Ident(word), st1),
    }
}

/// A number whose first digit (at `start`) is consumed.
pub open spec fn scan_number(s: Seq<char>, st: LexState, start: nat) -> (KindView, LexState) {
    let st1 = skip_digits(s, st);
    let fraction = at(s, st1.idx) == Some('.') && (match at(s, st1.idx + 1) {
        Some(d) => is_digit(d),
        None => false,
    });
    let st2 = if fraction {
        skip_digits(s, step(s, st1))
    } else {
        st1
    };
    if at(s, st2.idx) == Some('e') || at(s, st2.idx) == Some('E') {
        let st3 = step(s, st2);
        let st4 = if at(s, st3.idx) == Some('+') || at(s, st3.idx) == Some('-') {
            step(s, st3)
        } else {
            st3
        };
        let digit_follows = match at(s, st4.idx) {
            Some(d) => is_digit(d),
            None => false,
        };
        if !digit_follows {
            (KindView::Error("invalid float literal: expected digit after exponent"@), st4)
        } else {
            let st5 = skip_digits(s, st4);
            (KindView::Float(s.subrange(start as int, st5.idx as int)), st5)
        }
    } else if fraction {
        (KindView::Float(s.subrange(start as int, st2.idx as int)), st2)
    } else {
        (KindView::Int(s.subrange(start as int, st2.idx as int)), st2)
    }
}

/// Scans the body of a string literal whose opening quote is consumed: the final
/// state, and whether a closing quote ended it.  A backslash makes the character
/// after it part of the body.
pub open spec fn string_close(s: Seq<char>, st: LexState) -> (LexState, bool)
    decreases s.len() - st.idx,
{
    if st.idx >= s.len() {
        (st, false)
    } else {
        let c = s[st.idx as int];
        let st1 = step(s, st);
        if c == '\\' {
            string_close(s, step(s, st1))
        } else if c == '"' {
            (st1, true)
        } else if c == '\n' {
            (st1, false)
        } else {
            string_close(s, st1)
        }
    }
}

/// Finds the `}` that closes a `\u{..}` escape inside string text, starting at `j`.
pub open spec fn brace_close(raw: Seq<char>, j: int) -> Result<int, Seq<char>>
    decreases raw.len() - j,
{
    if j < 0 || j >= raw.len() {
        Err("unterminated unicode escape"@)
    } else if raw[j] == '}' {
        Ok(j)
    } else if is_hex_digit(raw[j]) {
        brace_close(raw, j + 1)
    } else {
        Err("invalid char in unicode escape: '"@.push(raw[j]) + "'"@)
    }
}

pub proof fn lemma_brace_close(raw: Seq<char>, j: int)
    requires
        0 <= j,
    ensures
        brace_close(raw, j) matches Ok(k) ==> j <= k < raw.len() && raw[k] == '}',
    decreases raw.len() - j,
{
    if j < 0 || j >= raw.len() {
    } else if raw[j] == '}' {
    } else if is_hex_digit(raw[j]) {
        lemma_brace_close(raw, j + 1);
    }
}

/// The character a two-digit `\x` escape denotes.
pub open spec fn hex2_char(a: char, b: char) -> char {
    ((hex_value(a) * 16 + hex_value(b)) as u32) as char
}

/// Replaces escape sequences in string text, from index `i` on, appending to `acc`.
/// Unknown escapes are kept as written.
pub open spec fn unescape_from(raw: Seq<char>, i: int, acc: Seq<char>) -> Result<
    Seq<char>,
    Seq<char>,
>
    decreases raw.len() - i,
{
    if i < 0 || i >= raw.len() {
        Ok(acc)
    } else if raw[i] != '\\' {
        unescape_from(raw, i + 1, acc.push(raw[i]))
    } else if i + 1 >= raw.len() {
        Err("unterminated escape"@)
    } else {
        let e = raw[i + 1];
        if e == 'n' {
            unescape_from(raw, i + 2, acc.push('\n'))
        } else if e == 't' {
            unescape_from(raw, i + 2, acc.push('\t'))
        } else if e == 'r' {
            unescape_from(raw, i + 2, acc.push('\r'))
        } else if e == '0' {
            unescape_from(raw, i + 2, acc.push('\0'))
        } else if e == '\\' {
            unescape_from(raw, i + 2, acc.push('\\'))
        } else if e == '"' {
            unescape_from(raw, i + 2, acc.push('"'))
        } else if e == '\'' {
            unescape_from(raw, i + 2, acc.push('\''))
        } else if e == 'x' {
            if i + 3 < raw.len() && is_hex_digit(raw[i + 2]) && is_hex_digit(raw[i + 3]) {
                unescape_from(raw, i + 4, acc.push(hex2_char(raw[i + 2], raw[i + 3])))
            } else {
                Err("bad hex escape"@)
            }
        } else if e == 'u' {
            if i + 2 >= raw.len() || raw[i + 2] != '{' {
                Err("expected '{{' in unicode escape"@)
            } else {
                match brace_close(raw, i + 3) {
                    Err(m) => Err(m),
                    Ok(j) => match parse_hex_u32(raw.subrange(i + 3, j)) {
                        None => Err("bad unicode escape"@),
                        Some(v) => if is_scalar_value(v) {
                            proof {
                                lemma_brace_close(raw, i + 3);
                            }
                            unescape_from(raw, j + 1, acc.push(v as char))
                        } else {
                            Err("bad unicode value"@)
                        },
                    },
                }
            }
        } else {
            unescape_from(raw, i + 2, acc.push('\\').push(e))
        }
    }
}

pub open spec fn unescape(raw: Seq<char>) -> Result<Seq<char>, Seq<char>> {
    unescape_from(raw, 0, Seq::empty())
}

/// A string literal whose opening quote is consumed.
pub open spec fn scan_string(s: Seq<char>, st: LexState) -> (KindView, LexState) {
    let (st1, closed) = string_close(s, st);
    if closed {
        match unescape(s.subrange(st.idx as int, st1.idx - 1)) {
            Ok(v) => (KindView::Str(v), st1),
            Err(m) => (KindView::Error(m), st1),
        }
    } else {
        (KindView::Error("unterminated string literal"@), st1)
    }
}

/// A `\x` escape with its two hex digits.
pub open spec fn hex_escape2(s: Seq<char>, st: LexState) -> (Result<char, Seq<char>>, LexState) {
    match at(s, st.idx) {
        None => (Err("unterminated hex escape"@), st),
        Some(a) => {
            let st1 = step(s, st);
            if !is_hex_digit(a) {
                (Err("invalid hex digit '"@.push(a) + "' in escape"@), st1)
            } else {
                match at(s, st1.idx) {
                    None => (Err("unterminated hex escape"@), st1),
                    Some(b) => {
                        let st2 = step(s, st1);
                        if !is_hex_digit(b) {
                            (Err("invalid hex digit '"@.push(b) + "' in escape"@), st2)
                        } else {
                            (Ok(hex2_char(a, b)), st2)
                        }
                    },
                }
            }
        },
    }
}

/// The hex digits of a `\u{..}` escape, up to (not including) the closing brace.
pub open spec fn hex_until_close(s: Seq<char>, st: LexState) -> (Result<char, Seq<char>>, LexState) {
    let st1 = skip_hex(s, st);
    match at(s, st1.idx) {
        None => (Err("unterminated unicode escape"@), st1),
        Some(c) => if c == '}' {
            let hex = s.subrange(st.idx as int, st1.idx as int);
            if hex.len() == 0 {
                (Err("empty unicode escape"@), st1)
            } else {
                match parse_hex_u32(hex) {
                    Some(v) => if is_scalar_value(v) {
                        (Ok(v as char), st1)
                    } else {
                        (Err("invalid unicode value '\\u{"@ + hex + "}'"@), st1)
                    },
                    None => (Err("invalid unicode value '\\u{"@ + hex + "}'"@), st1),
                }
            }
        } else {
            (Err("invalid hex digit '"@.push(c) + "' in unicode escape"@), st1)
        },
    }
}

/// An escape sequence in a char literal, after its backslash.
pub open spec fn read_escape(s: Seq<char>, st: LexState) -> (Result<char, Seq<char>>, LexState) {
    match at(s, st.idx) {
        None => (Err("unterminated escape sequence"@), st),
        Some(c) => {
            let st1 = step(s, st);
            if c == 'n' {
                (Ok('\n'), st1)
            } else if c == 't' {
                (Ok('\t'), st1)
            } else if c == 'r' {
                (Ok('\r'), st1)
            } else if c == '0' {
                (Ok('\0'), st1)
            } else if c == '\\' {
                (Ok('\\'), st1)
            } else if c == '"' {
                (Ok('"'), st1)
            } else if c == '\'' {
                (Ok('\''), st1)
            } else if c == 'x' {
                hex_escape2(s, st1)
            } else if c == 'u' {
                let st2 = step(s, st1);
                if at(s, st1.idx) != Some('{') {
                    (Err("expected '{{' after \\u"@), st2)
                } else {
                    let (res, st3) = hex_until_close(s, st2);
                    let st4 = step(s, st3);
                    if at(s, st3.idx) != Some('}') {
                        (Err("expected '}}' after unicode escape"@), st4)
                    } else {
                        (res, st4)
                    }
                }
            } else {
                (Err("invalid escape sequence '\\"@.push(c) + "'"@), st1)
            }
        },
    }
}

/// A char literal whose opening quote is consumed.
pub open spec fn scan_char(s: Seq<char>, st: LexState) -> (KindView, LexState) {
    match at(s, st.idx) {
        None => (KindView::Error("unterminated char literal"@), st),
        Some(c) => {
            let st1 = step(s, st);
            if c == '\\' {
                let (esc, st2) = read_escape(s, st1);
                let close = at(s, st2.idx);
                let st3 = step(s, st2);
                match esc {
                    Err(m) => (KindView::Error(m), st3),
                    Ok(ch) => match close {
                        None => (KindView::Error("unterminated char literal"@), st3),
                        Some(d) => if d == '\'' {
                            (KindView::Char(ch), st3)
                        } else {
                            (
                                KindView::Error(
                                    "expected closing ' after char escape, found '"@.push(d)
                                        + "'"@,
                                ),
                                st3,
                            )
                        },
                    },
                }
            } else if c == '\'' {
                (KindView::Error("empty char literal"@), st1)
            } else {
                let st2 = step(s, st1);
                match at(s, st1.idx) {
                    None => (KindView::Error("unterminated char literal"@), st2),
                    Some(d) => if d == '\'' {
                        (KindView::Char(c), st2)
                    } else {
                        (
                            KindView::Error(
                                "expected closing ' after char '"@.push(c) + "', found '"@.push(d)
                                    + "'"@,
                            ),
                            st2,
                        )
                    },
                }
            }
        },
    }
}

/// Two-character operators take their second character when it follows.
pub open spec fn pair(s: Seq<char>, st: LexState, second: char, long: TokenKind, short: TokenKind) -> (
    KindView,
    LexState,
) {
    if at(s, st.idx) == Some(second) {
        (KindView::Plain(long), step(s, st))
    } else {
        (KindView::Plain(short), st)
    }
}

/// Punctuation and operators; `c` is consumed.
pub open spec fn scan_punct(s: Seq<char>, st: LexState, c: char) -> (KindView, LexState) {
    if c == ';' { (KindView::Plain(TokenKind::Semicolon), st) }
    else if c == ':' { (KindView::Plain(TokenKind::Colon), st) }
    else if c == ',' { (KindView::Plain(TokenKind::Comma), st) }
    else if c == '(' { (KindView::Plain(TokenKind::LParen), st) }
    else if c == ')' { (KindView::Plain(TokenKind::RParen), st) }
    else if c == '{' { (KindView::Plain(TokenKind::LBrace), st) }
    else if c == '}' { (KindView::Plain(TokenKind::RBrace), st) }
    else if c == '[' { (KindView::Plain(TokenKind::LBracket), st) }
    else if c == ']' { (KindView::Plain(TokenKind::RBracket), st) }
    else if c == '?' { (KindView::Plain(TokenKind::Question), st) }
    else if c == '%' { (KindView::Plain(TokenKind::Percent), st) }
    else if c == '=' {
        if at(s, st.idx) == Some('=') {
            (KindView::Plain(TokenKind::EqEq), step(s, st))
        } else {
            pair(s, st, '>', TokenKind::FatArrow, TokenKind::Equals)
        }
    }
    else if c == '!' { pair(s, st, '=', TokenKind::BangEq, TokenKind::Bang) }
    else if c == '<' { pair(s, st, '=', TokenKind::LessEq, TokenKind::Less) }
    else if c == '>' { pair(s, st, '=', TokenKind::GreaterEq, TokenKind::Greater) }
    else if c == '|' {
        if at(s, st.idx) == Some('|') {
            (KindView::Plain(TokenKind::PipePipe), step(s, st))
        } else {
            pair(s, st, '>', TokenKind::PipeGreater, TokenKind::Pipe)
        }
    }
    else if c == '&' {
        match at(s, st.idx) {
            Some(d) => if d == '&' {
                (KindView::Plain(TokenKind::AmpAmp), step(s, st))
            } else if d == '_' || alphabetic(d) {
                let st2 = skip_ident(s, step(s, st));
                if s.subrange(st.idx as int, st2.idx as int) == "mut"@ {
                    (KindView::Plain(TokenKind::AmpMut), st2)
                } else {
                    (KindView::Plain(TokenKind::Amp), st)
                }
            } else {
                (KindView::Plain(TokenKind::Amp), st)
            },
            None => (KindView::Plain(TokenKind::Amp), st),
        }
    }
    else if c == '-' { pair(s, st, '>', TokenKind::Arrow, TokenKind::Minus) }
    else if c == '+' { (KindView::Plain(TokenKind::Plus), st) }
    else if c == '*' { (KindView::Plain(TokenKind::Star), st) }
    else if c == '/' { (KindView::Plain(TokenKind::Slash), st) }
    else if c == '.' { pair(s, st, '.', TokenKind::DotDot, TokenKind::Dot) }
    else { (KindView::Error("unexpected character '"@.push(c) + "'"@), st) }
}

/// The token that starts at `st` (trivia already skipped).
pub open spec fn scan_token(s: Seq<char>, st: LexState) -> (KindView, LexState) {
    match at(s, st.idx) {
        None => (KindView::Plain(TokenKind::Eof), st),
        Some(c) => {
            let st1 = step(s, st);
            if c == '_' || alphabetic(c) {
                scan_word(s, st1, st.idx)
            } else if is_digit(c) {
                scan_number(s, st1, st.idx)
            } else if c == '"' {
                scan_string(s, st1)
            } else if c == '\'' {
                scan_char(s, st1)
            } else {
                scan_punct(s, st1, c)
            }
        },
    }
}

/// The next token after `st`, and the state after it.
pub open spec fn next_lexeme(s: Seq<char>, st: LexState) -> (Lexeme, LexState) {
    let st1 = skip_trivia(s, st);
    let (kind, st2) = scan_token(s, st1);
    (Lexeme { kind, start: st1.idx, end: st2.idx, line: st1.line, column: st1.column }, st2)
}

/// A token of the exec world agrees with a lexeme of the source `s`.
pub open spec fn token_is(t: Token, s: Seq<char>, lx: Lexeme) -> bool {
    &&& t.kind.kview() == lx.kind
    &&& t.span.start == byte_offset(s, lx.start)
    &&& t.span.end == byte_offset(s, lx.end)
    &&& t.line == lx.line
    &&& t.column == lx.column
}


// ---------------------------------------------------------------------------
// Progress of the scanners
// ---------------------------------------------------------------------------

pub proof fn lemma_string_close(s: Seq<char>, st: LexState)
    requires
        st.idx <= s.len(),
    ensures
        st.idx <= string_close(s, st).0.idx <= s.len(),
        string_close(s, st).1 ==> st.idx < string_close(s, st).0.idx,
    decreases s.len() - st.idx,
{
    if st.idx < s.len() {
        let c = s[st.idx as int];
        let st1 = step(s, st);
        if c == '\\' {
            lemma_string_close(s, step(s, st1));
        } else if c == '"' || c == '\n' {
        } else {
            lemma_string_close(s, st1);
        }
    }
}

pub proof fn lemma_read_escape(s: Seq<char>, st: LexState)
    requires
        st.idx <= s.len(),
    ensures
        st.idx <= read_escape(s, st).1.idx <= s.len(),
{
    lemma_skips(s, step(s, step(s, step(s, st))));
}

/// Every token other than `Eof` consumes at least one character, and the lexer never
/// moves past the end of the source.
pub proof fn lemma_scan_token(s: Seq<char>, st: LexState)
    requires
        st.idx <= s.len(),
    ensures
        st.idx <= scan_token(s, st).1.idx <= s.len(),
        scan_token(s, st).0 != KindView::Plain(TokenKind::Eof) ==> st.idx < scan_token(s, st).1.idx,
        scan_token(s, st).0 == KindView::Plain(TokenKind::Eof) <==> st.idx == s.len(),
{
    if st.idx < s.len() {
        let c = s[st.idx as int];
        let st1 = step(s, st);
        lemma_skips(s, st1);
        let d1 = skip_digits(s, st1);
        lemma_skips(s, d1);
        lemma_skips(s, step(s, d1));
        let d2 = skip_digits(s, step(s, d1));
        lemma_skips(s, d2);
        lemma_skips(s, step(s, d2));
        lemma_skips(s, step(s, step(s, d2)));
        lemma_skips(s, step(s, step(s, d1)));
        lemma_skips(s, step(s, step(s, step(s, d2))));
        lemma_skips(s, step(s, step(s, step(s, d1))));
        lemma_string_close(s, st1);
        lemma_read_escape(s, step(s, st1));
        lemma_skips(s, step(s, st1));
        if c == '_' || alphabetic(c) {
            if keyword_of(s.subrange(st.idx as int, skip_ident(s, st1).idx as int)) is Some {
                assert(scan_token(s, st).0 != KindView::Plain(TokenKind::Eof));
            }
        }
    }
}

/// The next token and the state after it: the lexer moves forward, and only the end
/// of the source gives `Eof`.
pub proof fn lemma_next_lexeme(s: Seq<char>, st: LexState)
    requires
        st.idx <= s.len(),
    ensures
        ({
            let (lx, st2) = next_lexeme(s, st);
            &&& st.idx <= lx.start <= lx.end <= s.len()
            &&& lx.end == st2.idx
            &&& (lx.kind == KindView::Plain(TokenKind::Eof) <==> lx.start == s.len())
            &&& (lx.kind != KindView::Plain(TokenKind::Eof) ==> lx.start < lx.end)
        }),
{
    lemma_skip_trivia(s, st);
    lemma_scan_token(s, skip_trivia(s, st));
}

/// All tokens from `st` on, up to (not including) `Eof`.
pub open spec fn lexemes(s: Seq<char>, st: LexState) -> Seq<Lexeme>
    decreases s.len() - st.idx,
{
    if st.idx > s.len() {
        Seq::empty()
    } else {
        let (lx, st2) = next_lexeme(s, st);
        if lx.kind == KindView::Plain(TokenKind::Eof) {
            Seq::empty()
        } else {
            proof {
                lemma_next_lexeme(s, st);
            }
            seq![lx] + lexemes(s, st2)
        }
    }
}

/// The tokens of a source are not empty, are not `Eof`, lie within the
/// source, and follow one another without overlapping.
pub proof fn lemma_lexemes_in_order(s: Seq<char>, st: LexState)
    requires
        st.idx <= s.len(),
    ensures
        forall|i: int|
            0 <= i < lexemes(s, st).len() ==> {
                &&& st.idx <= (#[trigger] lexemes(s, st)[i]).start < lexemes(s, st)[i].end <= s.len()
                &&& lexemes(s, st)[i].kind != KindView::Plain(TokenKind::Eof)
            },
        forall|i: int, j: int|
            0 <= i < j < lexemes(s, st).len() ==> (#[trigger] lexemes(s, st)[i]).end <= (
            #[trigger] lexemes(s, st)[j]).start,
    decreases s.len() - st.idx,
{
    lemma_next_lexeme(s, st);
    let (lx, st2) = next_lexeme(s, st);
    if lx.kind != KindView::Plain(TokenKind::Eof) {
        lemma_lexemes_in_order(s, st2);
        let all = lexemes(s, st);
        let rest = lexemes(s, st2);
        assert(all == seq![lx] + rest);
        assert forall|i: int| 0 <= i < all.len() implies {
            &&& st.idx <= (#[trigger] all[i]).start < all[i].end <= s.len()
            &&& all[i].kind != KindView::Plain(TokenKind::Eof)
        } by {
            if i > 0 {
                assert(all[i] == rest[i - 1]);
            }
        }
        assert forall|i: int, j: int| 0 <= i < j < all.len() implies (#[trigger] all[i]).end <= (
        #[trigger] all[j]).start by {
            assert(all[j] == rest[j - 1]);
            if i > 0 {
                assert(all[i] == rest[i - 1]);
            }
        }
    }
}

// ---------------------------------------------------------------------------
// Spans
// ---------------------------------------------------------------------------

/// `b` is the byte offset at which a character of `s` starts, or the end of `s`.
pub open spec fn is_char_boundary(s: Seq<char>, b: nat) -> bool {
    exists|i: nat| i <= s.len() && #[trigger] byte_offset(s, i) == b
}

/// The characters of `s` between the byte offsets `a` and `b` are `w`.
pub open spec fn text_between(s: Seq<char>, a: nat, b: nat, w: Seq<char>) -> bool {
    exists|i: nat, j: nat|
        i <= j <= s.len() && #[trigger] byte_offset(s, i) == a && #[trigger] byte_offset(s, j) == b
            && s.subrange(i as int, j as int) == w
}

/// Byte offsets grow strictly with character indices; the offset of the end of the
/// source is its UTF-8 length.
pub proof fn lemma_byte_offset(s: Seq<char>, i: nat, j: nat)
    requires
        i <= j <= s.len(),
    ensures
        byte_offset(s, i) <= byte_offset(s, j) <= utf8_total(s),
        i < j ==> byte_offset(s, i) < byte_offset(s, j),
{
    lemma_utf8_total_mono(s, i as int, j as int);
    lemma_utf8_total_mono(s, j as int, s.len() as int);
    assert(s.take(s.len() as int) =~= s);
    if i < j {
        lemma_utf8_total_step(s, i as int);
        lemma_utf8_total_mono(s, (i + 1) as int, j as int);
    }
}

/// An identifier or a number holds the characters that its token covers.
pub proof fn lemma_scan_token_text(s: Seq<char>, st: LexState)
    ensures
        ({
            let (k, st2) = scan_token(s, st);
            match k {
                KindView::Ident(w) => w == s.subrange(st.idx as int, st2.idx as int),
                KindView::Int(w) => w == s.subrange(st.idx as int, st2.idx as int),
                KindView::Float(w) => w == s.subrange(st.idx as int, st2.idx as int),
                _ => true,
            }
        }),
{
}

/// Of two tokens read one after the other from any state of the lexer: each span lies
/// within the source and starts and ends on character boundaries; the second starts
/// no earlier than the first ends; only `Eof` has an empty span; an identifier or a
/// number holds exactly the source text its span covers; and `Eof` spans the end of
/// the source and is read again, unchanged, from the same state.  For a lexer `lx`,
/// `Lexer::lemma_within_source` gives its precondition with `s == lx.source()` and
/// `st == lx.state()`, and `Lexer::next_token` gives the other two.
pub proof fn lemma_token_spans(s: Seq<char>, st: LexState, t: Token, u: Token)
    requires
        st.idx <= s.len(),
        token_is(t, s, next_lexeme(s, st).0),
        token_is(u, s, next_lexeme(s, next_lexeme(s, st).1).0),
    ensures
        t.span.start <= t.span.end <= utf8_total(s),
        is_char_boundary(s, t.span.start as nat),
        is_char_boundary(s, t.span.end as nat),
        t.span.end <= u.span.start,
        !(t.kind is Eof) ==> t.span.start < t.span.end,
        t.kind matches TokenKind::Identifier(w) ==> text_between(
            s,
            t.span.start as nat,
            t.span.end as nat,
            w@,
        ),
        t.kind matches TokenKind::IntLiteral(w) ==> text_between(
            s,
            t.span.start as nat,
            t.span.end as nat,
            w@,
        ),
        t.kind matches TokenKind::FloatLiteral(w) ==> text_between(
            s,
            t.span.start as nat,
            t.span.end as nat,
            w@,
        ),
        t.kind is Eof ==> t.span.start == utf8_total(s) && t.span.end == utf8_total(s) && u == t
            && next_lexeme(s, next_lexeme(s, st).1).1 == next_lexeme(s, st).1,
{
    let (lx, st2) = next_lexeme(s, st);
    let (lx2, st3) = next_lexeme(s, st2);
    lemma_next_lexeme(s, st);
    lemma_next_lexeme(s, st2);
    lemma_byte_offset(s, lx.start, lx.end);
    lemma_byte_offset(s, lx.end, lx2.start);
    lemma_skip_trivia(s, st);
    lemma_scan_token_text(s, skip_trivia(s, st));
    assert(byte_offset(s, lx.start) == t.span.start);
    assert(byte_offset(s, lx.end) == t.span.end);
    if t.kind is Eof {
        assert(lx.kind == KindView::Plain(TokenKind::Eof));
        assert(lx.start == s.len());
        assert(s.take(s.len() as int) =~= s);
        assert(byte_offset(s, s.len()) == utf8_total(s));
        assert(st2 == skip_trivia(s, st));
        assert(skip_trivia(s, st2) == st2);
        assert(scan_token(s, st2) == (KindView::Plain(TokenKind::Eof), st2));
        assert(lx2 == lx);
        assert(u.kind.kview() == KindView::Plain(TokenKind::Eof));
        assert(u.kind == TokenKind::Eof);
        assert(u.span == t.span);
        assert(u == t);
    }
    if lx.kind == KindView::Plain(TokenKind::Eof) {
        assert(t.kind == TokenKind::Eof);
    }
}

// ---------------------------------------------------------------------------
// Token text read back
// ---------------------------------------------------------------------------

/// Where the lexer stands at the start of a source.
pub open spec fn start_state() -> LexState {
    LexState { idx: 0, line: 1, column: 1 }
}

/// Lexing `s` from its start gives one token of kind `k` that covers all of `s`,
/// and then `Eof`.
pub open spec fn lexes_alone(s: Seq<char>, k: KindView) -> bool {
    let (lx, st1) = next_lexeme(s, start_state());
    &&& lx.kind == k
    &&& lx.start == 0
    &&& lx.end == s.len()
    &&& next_lexeme(s, st1).0.kind == KindView::Plain(TokenKind::Eof)
}

/// A word that the lexer reads as one identifier or keyword: it is not empty, starts
/// with `_` or a letter, and goes on with identifier characters.
pub open spec fn is_word(w: Seq<char>) -> bool {
    &&& w.len() > 0
    &&& (w[0] == '_' || alphabetic(w[0]))
    &&& forall|i: int| 0 <= i < w.len() ==> is_ident_char(#[trigger] w[i])
}

/// A non-empty run of ASCII digits.
pub open spec fn is_digits(d: Seq<char>) -> bool {
    d.len() > 0 && forall|i: int| 0 <= i < d.len() ==> is_digit(#[trigger] d[i])
}

proof fn lemma_skip_ident_to_end(s: Seq<char>, st: LexState)
    requires
        st.idx <= s.len(),
        forall|i: int| st.idx <= i < s.len() ==> is_ident_char(#[trigger] s[i]),
    ensures
        skip_ident(s, st).idx == s.len(),
    decreases s.len() - st.idx,
{
    if st.idx < s.len() {
        lemma_skip_ident_to_end(s, step(s, st));
    }
}

proof fn lemma_skip_digits_to_end(s: Seq<char>, st: LexState)
    requires
        st.idx <= s.len(),
        forall|i: int| st.idx <= i < s.len() ==> is_digit(#[trigger] s[i]),
    ensures
        skip_digits(s, st).idx == s.len(),
    decreases s.len() - st.idx,
{
    if st.idx < s.len() {
        lemma_skip_digits_to_end(s, step(s, st));
    }
}

/// At the end of the source the next token is `Eof`.
proof fn lemma_end_is_eof(s: Seq<char>, st: LexState)
    requires
        st.idx == s.len(),
    ensures
        next_lexeme(s, st).0.kind == KindView::Plain(TokenKind::Eof),
{
    assert(skip_trivia(s, st) == st);
}

/// A word alone lexes as its keyword, or else as an identifier holding it.
pub proof fn lemma_word_alone(w: Seq<char>)
    requires
        is_word(w),
    ensures
        lexes_alone(
            w,
            match keyword_of(w) {
                Some(k) => KindView::Plain(k),
                None => KindView::Ident(w),
            },
        ),
{
    let st0 = start_state();
    assert(skip_trivia(w, st0) == st0);
    lemma_skip_ident_to_end(w, step(w, st0));
    assert(w.subrange(0, w.len() as int) =~= w);
    lemma_end_is_eof(w, next_lexeme(w, st0).1);
}

/// A run of digits alone lexes as an integer literal holding it.
pub proof fn lemma_digits_alone(d: Seq<char>)
    requires
        is_digits(d),
    ensures
        lexes_alone(d, KindView::Int(d)),
{
    let st0 = start_state();
    assert(is_digit(d[0]));
    assert(skip_trivia(d, st0) == st0);
    lemma_skip_digits_to_end(d, step(d, st0));
    assert(d.subrange(0, d.len() as int) =~= d);
    lemma_end_is_eof(d, next_lexeme(d, st0).1);
}

/// The kinds shown as a word: every keyword, `Self` and `_`.
pub open spec fn is_keyword_kind(k: TokenKind) -> bool {
    k is Import
        || k is As
        || k is Type
        || k is Abstract
        || k is Class
        || k is Extends
        || k is Impl
        || k is For
        || k is In
        || k is Fn
        || k is New
        || k is Static
        || k is Virtual
        || k is Override
        || k is Trait
        || k is Prop
        || k is Get
        || k is Set_
        || k is Let
        || k is If
        || k is Else
        || k is Match
        || k is Loop
        || k is While
        || k is Break
        || k is Continue
        || k is Return
        || k is Super
        || k is Self_
        || k is Public
        || k is Protected
        || k is Private
        || k is Mut
        || k is True
        || k is False
        || k is Null
        || k is SelfType
        || k is Underscore
}

/// Each keyword, read back from the text it is shown as, is that keyword.
#[verifier::rlimit(60)]
proof fn lemma_keyword_text(k: TokenKind)
    requires
        is_keyword_kind(k),
    ensures
        lexes_alone(k.display_text(), k.kview()),
{
    reveal_strlit("import");
    reveal_strlit("as");
    reveal_strlit("type");
    reveal_strlit("abstract");
    reveal_strlit("class");
    reveal_strlit("extends");
    reveal_strlit("impl");
    reveal_strlit("for");
    reveal_strlit("in");
    reveal_strlit("fn");
    reveal_strlit("new");
    reveal_strlit("static");
    reveal_strlit("virtual");
    reveal_strlit("override");
    reveal_strlit("trait");
    reveal_strlit("prop");
    reveal_strlit("get");
    reveal_strlit("set");
    reveal_strlit("let");
    reveal_strlit("if");
    reveal_strlit("else");
    reveal_strlit("match");
    reveal_strlit("loop");
    reveal_strlit("while");
    reveal_strlit("break");
    reveal_strlit("continue");
    reveal_strlit("return");
    reveal_strlit("super");
    reveal_strlit("self");
    reveal_strlit("public");
    reveal_strlit("protected");
    reveal_strlit("private");
    reveal_strlit("mut");
    reveal_strlit("true");
    reveal_strlit("false");
    reveal_strlit("null");
    reveal_strlit("Self");
    reveal_strlit("_");
    match k {
        TokenKind::Import => {
            lemma_word_alone("import"@);
        },
        TokenKind::As => {
            lemma_word_alone("as"@);
        },
        TokenKind::Type => {
            lemma_word_alone("type"@);
        },
        TokenKind::Abstract => {
            lemma_word_alone("abstract"@);
        },
        TokenKind::Class => {
            lemma_word_alone("class"@);
        },
        TokenKind::Extends => {
            lemma_word_alone("extends"@);
        },
        TokenKind::Impl => {
            lemma_word_alone("impl"@);
        },
        TokenKind::For => {
            lemma_word_alone("for"@);
        },
        TokenKind::In => {
            lemma_word_alone("in"@);
        },
        TokenKind::Fn => {
            lemma_word_alone("fn"@);
        },
        TokenKind::New => {
            lemma_word_alone("new"@);
        },
        TokenKind::Static => {
            lemma_word_alone("static"@);
        },
        TokenKind::Virtual => {
            lemma_word_alone("virtual"@);
        },
        TokenKind::Override => {
            lemma_word_alone("override"@);
        },
        TokenKind::Trait => {
            lemma_word_alone("trait"@);
        },
        TokenKind::Prop => {
            lemma_word_alone("prop"@);
        },
        TokenKind::Get => {
            lemma_word_alone("get"@);
        },
        TokenKind::Set_ => {
            lemma_word_alone("set"@);
        },
        TokenKind::Let => {
            lemma_word_alone("let"@);
        },
        TokenKind::If => {
            lemma_word_alone("if"@);
        },
        TokenKind::Else => {
            lemma_word_alone("else"@);
        },
        TokenKind::Match => {
            lemma_word_alone("match"@);
        },
        TokenKind::Loop => {
            lemma_word_alone("loop"@);
        },
        TokenKind::While => {
            lemma_word_alone("while"@);
        },
        TokenKind::Break => {
            lemma_word_alone("break"@);
        },
        TokenKind::Continue => {
            lemma_word_alone("continue"@);
        },
        TokenKind::Return => {
            lemma_word_alone("return"@);
        },
        TokenKind::Super => {
            lemma_word_alone("super"@);
        },
        TokenKind::Self_ => {
            lemma_word_alone("self"@);
        },
        TokenKind::Public => {
            lemma_word_alone("public"@);
        },
        TokenKind::Protected => {
            lemma_word_alone("protected"@);
        },
        TokenKind::Private => {
            lemma_word_alone("private"@);
        },
        TokenKind::Mut => {
            lemma_word_alone("mut"@);
        },
        TokenKind::True => {
            lemma_word_alone("true"@);
        },
        TokenKind::False => {
            lemma_word_alone("false"@);
        },
        TokenKind::Null => {
            lemma_word_alone("null"@);
        },
        TokenKind::SelfType => {
            lemma_word_alone("Self"@);
        },
        TokenKind::Underscore => {
            lemma_word_alone("_"@);
        },
        _ => {},
    }
}

/// Each delimiter and operator, read back from the text it is shown as, is itself.
#[verifier::rlimit(60)]
proof fn lemma_punct_text(k: TokenKind)
    requires
        k.is_plain(),
        !(k is Eof),
        !is_keyword_kind(k),
    ensures
        lexes_alone(k.display_text(), k.kview()),
{
    let s = k.display_text();
    let st0 = start_state();
    reveal_strlit("mut");
    match k {
        TokenKind::Semicolon => {
            reveal_strlit(";");
            assert(skip_trivia(s, st0) == st0);
            lemma_end_is_eof(s, next_lexeme(s, st0).1);
        },
        TokenKind::Colon => {
            reveal_strlit(":");
            assert(skip_trivia(s, st0) == st0);
            lemma_end_is_eof(s, next_lexeme(s, st0).1);
        },
        TokenKind::Comma => {
            reveal_strlit(",");
            assert(skip_trivia(s, st0) == st0);
            lemma_end_is_eof(s, next_lexeme(s, st0).1);
        },
        TokenKind::Dot => {
            reveal_strlit(".");
            assert(skip_trivia(s, st0) == st0);
            lemma_end_is_eof(s, next_lexeme(s, st0).1);
        },
        TokenKind::LParen => {
            reveal_strlit("(");
            assert(skip_trivia(s, st0) == st0);
            lemma_end_is_eof(s, next_lexeme(s, st0).1);
        },
        TokenKind::RParen => {
            reveal_strlit(")");
            assert(skip_trivia(s, st0) == st0);
            lemma_end_is_eof(s, next_lexeme(s, st0).1);
        },
        TokenKind::LBrace => {
            reveal_strlit("{");
            assert(skip_trivia(s, st0) == st0);
            lemma_end_is_eof(s, next_lexeme(s, st0).1);
        },
        TokenKind::RBrace => {
            reveal_strlit("}");
            assert(skip_trivia(s, st0) == st0);
            lemma_end_is_eof(s, next_lexeme(s, st0).1);
        },
        TokenKind::LBracket => {
            reveal_strlit("[");
            assert(skip_trivia(s, st0) == st0);
            lemma_end_is_eof(s, next_lexeme(s, st0).1);
        },
        TokenKind::RBracket => {
            reveal_strlit("]");
            assert(skip_trivia(s, st0) == st0);
            lemma_end_is_eof(s, next_lexeme(s, st0).1);
        },
        TokenKind::Pipe => {
            reveal_strlit("|");
            assert(skip_trivia(s, st0) == st0);
            lemma_end_is_eof(s, next_lexeme(s, st0).1);
        },
        TokenKind::Amp => {
            reveal_strlit("&");
            assert(skip_trivia(s, st0) == st0);
            lemma_end_is_eof(s, next_lexeme(s, st0).1);
        },
        TokenKind::Bang => {
            reveal_strlit("!");
            assert(skip_trivia(s, st0) == st0);
            lemma_end_is_eof(s, next_lexeme(s, st0).1);
        },
        TokenKind::Minus => {
            reveal_strlit("-");
            assert(skip_trivia(s, st0) == st0);
            lemma_end_is_eof(s, next_lexeme(s, st0).1);
        },
        TokenKind::Plus => {
            reveal_strlit("+");
            assert(skip_trivia(s, st0) == st0);
            lemma_end_is_eof(s, next_lexeme(s, st0).1);
        },
        TokenKind::Star => {
            reveal_strlit("*");
            assert(skip_trivia(s, st0) == st0);
            lemma_end_is_eof(s, next_lexeme(s, st0).1);
        },
        TokenKind::Slash => {
            reveal_strlit("/");
            assert(skip_trivia(s, st0) == st0);
            lemma_end_is_eof(s, next_lexeme(s, st0).1);
        },
        TokenKind::Percent => {
            reveal_strlit("%");
            assert(skip_trivia(s, st0) == st0);
            lemma_end_is_eof(s, next_lexeme(s, st0).1);
        },
        TokenKind::Equals => {
            reveal_strlit("=");
            assert(skip_trivia(s, st0) == st0);
            lemma_end_is_eof(s, next_lexeme(s, st0).1);
        },
        TokenKind::Less => {
            reveal_strlit("<");
            assert(skip_trivia(s, st0) == st0);
            lemma_end_is_eof(s, next_lexeme(s, st0).1);
        },
        TokenKind::Greater => {
            reveal_strlit(">");
            assert(skip_trivia(s, st0) == st0);
            lemma_end_is_eof(s, next_lexeme(s, st0).1);
        },
        TokenKind::Question => {
            reveal_strlit("?");
            assert(skip_trivia(s, st0) == st0);
            lemma_end_is_eof(s, next_lexeme(s, st0).1);
        },
        TokenKind::PipePipe => {
            reveal_strlit("||");
            assert(skip_trivia(s, st0) == st0);
            lemma_end_is_eof(s, next_lexeme(s, st0).1);
        },
        TokenKind::AmpAmp => {
            reveal_strlit("&&");
            assert(skip_trivia(s, st0) == st0);
            lemma_end_is_eof(s, next_lexeme(s, st0).1);
        },
        TokenKind::EqEq => {
            reveal_strlit("==");
            assert(skip_trivia(s, st0) == st0);
            lemma_end_is_eof(s, next_lexeme(s, st0).1);
        },
        TokenKind::BangEq => {
            reveal_strlit("!=");
            assert(skip_trivia(s, st0) == st0);
            lemma_end_is_eof(s, next_lexeme(s, st0).1);
        },
        TokenKind::LessEq => {
            reveal_strlit("<=");
            assert(skip_trivia(s, st0) == st0);
            lemma_end_is_eof(s, next_lexeme(s, st0).1);
        },
        TokenKind::GreaterEq => {
            reveal_strlit(">=");
            assert(skip_trivia(s, st0) == st0);
            lemma_end_is_eof(s, next_lexeme(s, st0).1);
        },
        TokenKind::Arrow => {
            reveal_strlit("->");
            assert(skip_trivia(s, st0) == st0);
            lemma_end_is_eof(s, next_lexeme(s, st0).1);
        },
        TokenKind::FatArrow => {
            reveal_strlit("=>");
            assert(skip_trivia(s, st0) == st0);
            lemma_end_is_eof(s, next_lexeme(s, st0).1);
        },
        TokenKind::DotDot => {
            reveal_strlit("..");
            assert(skip_trivia(s, st0) == st0);
            lemma_end_is_eof(s, next_lexeme(s, st0).1);
        },
        TokenKind::PipeGreater => {
            reveal_strlit("|>");
            assert(skip_trivia(s, st0) == st0);
            lemma_end_is_eof(s, next_lexeme(s, st0).1);
        },
        TokenKind::AmpMut => {
            reveal_strlit("&mut");
            assert(skip_trivia(s, st0) == st0);
            assert(skip_ident(s, step(s, step(s, step(s, st0)))).idx == 4) by {
                lemma_skip_ident_to_end(s, step(s, step(s, step(s, st0))));
            }
            assert(s.subrange(1, 4) =~= "mut"@);
            lemma_end_is_eof(s, next_lexeme(s, st0).1);
        },
        _ => {},
    }
}

/// What a token kind is shown as lexes back, alone, as that kind: every keyword,
/// delimiter and operator (all kinds without payload but `Eof`), an identifier
/// that is a word but no keyword, and an integer literal made of digits.
pub proof fn lemma_display_text_lexes_back(k: TokenKind)
    requires
        (k.is_plain() && !(k is Eof)) || (k matches TokenKind::Identifier(w) && is_word(w@)
            && keyword_of(w@) is None) || (k matches TokenKind::IntLiteral(d) && is_digits(d@)),
    ensures
        lexes_alone(k.display_text(), k.kview()),
{
    match k {
        TokenKind::Identifier(w) => {
            lemma_word_alone(w@);
        },
        TokenKind::IntLiteral(d) => {
            lemma_digits_alone(d@);
        },
        _ => {
            if is_keyword_kind(k) {
                lemma_keyword_text(k);
            } else {
                lemma_punct_text(k);
            }
        },
    }
}

// ---------------------------------------------------------------------------
// Implementation
// ---------------------------------------------------------------------------

pub struct Lexer {
    chars: Vec<char>,
    pos: usize,
    idx: usize,
    line: usize,
    column: usize,
}

/// `prefix`, then `c`, then `suffix`.
fn msg_char(prefix: &str, c: char, suffix: &str) -> (r: String)
    ensures
        r@ == prefix@.push(c) + suffix@,
{
    let mut r = string_of(prefix);
    r.push(c);
    push_str(&mut r, suffix);
    r
}

/// The keyword spelled by `word`, if it is one.
fn keyword_kind(word: &String) -> (r: Option<TokenKind>)
    ensures
        r == keyword_of(word@),
{
    let w = word.clone();
    if w == string_of("import") { Some(TokenKind::Import) }
    else if w == string_of("as") { Some(TokenKind::As) }
    else if w == string_of("type") { Some(TokenKind::Type) }
    else if w == string_of("abstract") { Some(TokenKind::Abstract) }
    else if w == string_of("class") { Some(TokenKind::Class) }
    else if w == string_of("extends") { Some(TokenKind::Extends) }
    else if w == string_of("impl") { Some(TokenKind::Impl) }
    else if w == string_of("for") { Some(TokenKind::For) }
    else if w == string_of("in") { Some(TokenKind::In) }
    else if w == string_of("fn") { Some(TokenKind::Fn) }
    else if w == string_of("new") { Some(TokenKind::New) }
    else if w == string_of("static") { Some(TokenKind::Static) }
    else if w == string_of("virtual") { Some(TokenKind::Virtual) }
    else if w == string_of("override") { Some(TokenKind::Override) }
    else if w == string_of("trait") { Some(TokenKind::Trait) }
    else if w == string_of("prop") { Some(TokenKind::Prop) }
    else if w == string_of("get") { Some(TokenKind::Get) }
    else if w == string_of("set") { Some(TokenKind::Set_) }
    else if w == string_of("let") { Some(TokenKind::Let) }
    else if w == string_of("if") { Some(TokenKind::If) }
    else if w == string_of("else") { Some(TokenKind::Else) }
    else if w == string_of("match") { Some(TokenKind::Match) }
    else if w == string_of("loop") { Some(TokenKind::Loop) }
    else if w == string_of("while") { Some(TokenKind::While) }
    else if w == string_of("break") { Some(TokenKind::Break) }
    else if w == string_of("continue") { Some(TokenKind::Continue) }
    else if w == string_of("return") { Some(TokenKind::Return) }
    else if w == string_of("super") { Some(TokenKind::Super) }
    else if w == string_of("self") { Some(TokenKind::Self_) }
    else if w == string_of("public") { Some(TokenKind::Public) }
    else if w == string_of("protected") { Some(TokenKind::Protected) }
    else if w == string_of("private") { Some(TokenKind::Private) }
    else if w == string_of("mut") { Some(TokenKind::Mut) }
    else if w == string_of("true") { Some(TokenKind::True) }
    else if w == string_of("false") { Some(TokenKind::False) }
    else if w == string_of("null") { Some(TokenKind::Null) }
    else if w == string_of("Self") { Some(TokenKind::SelfType) }
    else if w == string_of("_") { Some(TokenKind::Underscore) }
    else { None }
}

impl Lexer {
    /// The source characters.
    pub closed spec fn source(self) -> Seq<char> {
        self.chars@
    }

    /// Where the lexer stands.
    pub closed spec fn state(self) -> LexState {
        LexState { idx: self.idx as nat, line: self.line as nat, column: self.column as nat }
    }

    /// The lexer's fields agree with each other: the byte position is the UTF-8 length
    /// of the characters consumed, and every counter fits in a `usize`.
    pub closed spec fn wf(self) -> bool {
        &&& self.idx <= self.chars@.len()
        &&& self.chars@.len() < usize::MAX
        &&& utf8_total(self.chars@) <= usize::MAX
        &&& self.pos == utf8_total(self.chars@.take(self.idx as int))
        &&& 1 <= self.line <= self.idx + 1
        &&& 1 <= self.column <= self.idx + 1
    }

    /// A well-formed lexer stands within its source, whose length and UTF-8 size fit
    /// in a `usize`; so `lemma_token_spans` applies to the tokens it reads next.
    pub proof fn lemma_within_source(self)
        requires
            self.wf(),
        ensures
            self.state().idx <= self.source().len(),
            self.source().len() < usize::MAX,
            utf8_total(self.source()) <= usize::MAX,
    {
    }

    /// A lexer at the start of `source`.
    pub fn new(source: &str) -> (r: Lexer)
        requires
            source@.len() < usize::MAX,
            utf8_total(source@) <= usize::MAX,
        ensures
            r.wf(),
            r.source() == source@,
            r.state() == (LexState { idx: 0, line: 1, column: 1 }),
    {
        broadcast use vstd::string::group_string_axioms;
        let mut chars: Vec<char> = Vec::new();
        for c in it: source.chars()
            invariant
                chars@ == it.seq().take(it.index() as int),
        {
            chars.push(c);
        }
        assert(chars@ =~= source@);
        assert(chars@.take(0) =~= Seq::<char>::empty());
        Lexer { chars, pos: 0, idx: 0, line: 1, column: 1 }
    }

    fn peek(&self) -> (r: Option<char>)
        requires
            self.wf(),
        ensures
            r == at(self.chars@, self.idx as nat),
    {
        if self.idx < self.chars.len() {
            Some(self.chars[self.idx])
        } else {
            None
        }
    }

    fn peek_next(&self) -> (r: Option<char>)
        requires
            self.wf(),
        ensures
            r == at(self.chars@, (self.idx + 1) as nat),
    {
        if self.idx + 1 < self.chars.len() {
            Some(self.chars[self.idx + 1])
        } else {
            None
        }
    }

    fn advance(&mut self) -> (r: Option<char>)
        requires
            old(self).wf(),
        ensures
            final(self).wf(),
            final(self).chars == old(self).chars,
            final(self).state() == step(old(self).chars@, old(self).state()),
            r == at(old(self).chars@, old(self).idx as nat),
    {
        if self.idx < self.chars.len() {
            let c = self.chars[self.idx];
            proof {
                lemma_utf8_total_step(self.chars@, self.idx as int);
                lemma_utf8_total_mono(self.chars@, self.idx + 1, self.chars@.len() as int);
                assert(self.chars@.take(self.chars@.len() as int) =~= self.chars@);
            }
            self.pos = self.pos + len_utf8(c);
            self.idx = self.idx + 1;
            self.column = self.column + 1;
            Some(c)
        } else {
            None
        }
    }

    /// Moves to a new line right after a newline character was consumed.
    fn new_line(&mut self)
        requires
            old(self).wf(),
            old(self).line <= old(self).idx,
        ensures
            final(self).wf(),
            final(self).chars == old(self).chars,
            final(self).state() == newline(old(self).state()),
    {
        self.line = self.line + 1;
        self.column = 1;
    }

    fn skip_line_comment(&mut self)
        requires
            old(self).wf(),
        ensures
            final(self).wf(),
            final(self).chars == old(self).chars,
            final(self).state() == skip_line_comment(old(self).chars@, old(self).state()),
    {
        let ghost s = self.chars@;
        let ghost v0 = self.chars;
        let ghost st0 = self.state();
        while self.idx < self.chars.len() && self.chars[self.idx] != '\n'
            invariant
                self.wf(),
                self.chars@ == s,
                self.chars == v0,
                skip_line_comment(s, self.state()) == skip_line_comment(s, st0),
            decreases s.len() - self.idx,
        {
            self.advance();
        }
    }

    fn skip_block_comment(&mut self)
        requires
            old(self).wf(),
        ensures
            final(self).wf(),
            final(self).chars == old(self).chars,
            final(self).state() == skip_block_comment(old(self).chars@, old(self).state(), 1),
    {
        let ghost s = self.chars@;
        let ghost v0 = self.chars;
        let ghost st0 = self.state();
        let mut depth: usize = 1;
        while depth > 0 && self.idx < self.chars.len()
            invariant
                self.wf(),
                self.chars@ == s,
                self.chars == v0,
                depth <= self.idx + 1,
                skip_block_comment(s, self.state(), depth as nat) == skip_block_comment(s, st0, 1),
            decreases s.len() - self.idx,
        {
            let c0 = self.chars[self.idx];
            let c1 = self.peek_next();
            if c0 == '/' && c1 == Some('*') {
                self.advance();
                self.advance();
                depth = depth + 1;
            } else if c0 == '*' && c1 == Some('/') {
                self.advance();
                self.advance();
                depth = depth - 1;
            } else if c0 == '\n' {
                self.advance();
                self.new_line();
            } else {
                self.advance();
            }
        }
    }

    fn skip_whitespace_and_comments(&mut self)
        requires
            old(self).wf(),
        ensures
            final(self).wf(),
            final(self).chars == old(self).chars,
            final(self).state() == skip_trivia(old(self).chars@, old(self).state()),
    {
        let ghost s = self.chars@;
        let ghost v0 = self.chars;
        let ghost st0 = self.state();
        loop
            invariant
                self.wf(),
                self.chars@ == s,
                self.chars == v0,
                skip_trivia(s, self.state()) == skip_trivia(s, st0),
            ensures
                self.wf(),
                self.chars@ == s,
                self.chars == v0,
                self.state() == skip_trivia(s, st0),
            decreases s.len() - self.idx,
        {
            if self.idx >= self.chars.len() {
                break;
            }
            let c = self.chars[self.idx];
            if c == ' ' || c == '\t' || c == '\r' {
                self.advance();
            } else if c == '\n' {
                self.advance();
                self.new_line();
            } else if c == '/' && self.peek_next() == Some('/') {
                proof {
                    lemma_skip_line_comment(s, self.state());
                }
                self.skip_line_comment();
            } else if c == '/' && self.peek_next() == Some('*') {
                self.advance();
                self.advance();
                proof {
                    lemma_skip_block_comment(s, self.state(), 1);
                }
                self.skip_block_comment();
            } else {
                break;
            }
        }
    }

    fn skip_digits(&mut self)
        requires
            old(self).wf(),
        ensures
            final(self).wf(),
            final(self).chars == old(self).chars,
            final(self).state() == skip_digits(old(self).chars@, old(self).state()),
    {
        let ghost s = self.chars@;
        let ghost v0 = self.chars;
        let ghost st0 = self.state();
        while self.idx < self.chars.len() && ascii_digit(self.chars[self.idx])
            invariant
                self.wf(),
                self.chars@ == s,
                self.chars == v0,
                skip_digits(s, self.state()) == skip_digits(s, st0),
            decreases s.len() - self.idx,
        {
            self.advance();
        }
    }

    fn skip_ident(&mut self)
        requires
            old(self).wf(),
        ensures
            final(self).wf(),
            final(self).chars == old(self).chars,
            final(self).state() == skip_ident(old(self).chars@, old(self).state()),
    {
        let ghost s = self.chars@;
        let ghost v0 = self.chars;
        let ghost st0 = self.state();
        while self.idx < self.chars.len() && (self.chars[self.idx] == '_' || is_alphanumeric(
            self.chars[self.idx],
        ))
            invariant
                self.wf(),
                self.chars@ == s,
                self.chars == v0,
                skip_ident(s, self.state()) == skip_ident(s, st0),
            decreases s.len() - self.idx,
        {
            self.advance();
        }
    }

    fn skip_hex(&mut self)
        requires
            old(self).wf(),
        ensures
            final(self).wf(),
            final(self).chars == old(self).chars,
            final(self).state() == skip_hex(old(self).chars@, old(self).state()),
    {
        let ghost s = self.chars@;
        let ghost v0 = self.chars;
        let ghost st0 = self.state();
        while self.idx < self.chars.len() && ascii_hex_digit(self.chars[self.idx])
            invariant
                self.wf(),
                self.chars@ == s,
                self.chars == v0,
                skip_hex(s, self.state()) == skip_hex(s, st0),
            decreases s.len() - self.idx,
        {
            self.advance();
        }
    }

    /// Replaces the escape sequences of the string text `chars[from..to]`.
    fn unescape_range(&self, from: usize, to: usize) -> (r: Result<String, String>)
        requires
            self.wf(),
            from <= to <= self.chars.len(),
        ensures
            result_is(r, unescape(self.chars@.subrange(from as int, to as int))),
    {
        let ghost raw = self.chars@.subrange(from as int, to as int);
        let mut acc = String::new();
        let mut p = from;
        while p < to
            invariant
                self.wf(),
                from <= p <= to <= self.chars.len(),
                raw == self.chars@.subrange(from as int, to as int),
                unescape_from(raw, p - from, acc@) == unescape(raw),
            decreases to - p,
        {
            let c = self.chars[p];
            assert(raw[p - from] == c);
            if c != '\\' {
                acc.push(c);
                p = p + 1;
            } else if p + 1 >= to {
                return Err(string_of("unterminated escape"));
            } else {
                let e = self.chars[p + 1];
                assert(raw[p + 1 - from] == e);
                if e == 'n' {
                    acc.push('\n');
                    p = p + 2;
                } else if e == 't' {
                    acc.push('\t');
                    p = p + 2;
                } else if e == 'r' {
                    acc.push('\r');
                    p = p + 2;
                } else if e == '0' {
                    acc.push('\0');
                    p = p + 2;
                } else if e == '\\' {
                    acc.push('\\');
                    p = p + 2;
                } else if e == '"' {
                    acc.push('"');
                    p = p + 2;
                } else if e == '\'' {
                    acc.push('\'');
                    p = p + 2;
                } else if e == 'x' {
                    if p + 3 < to && ascii_hex_digit(self.chars[p + 2]) && ascii_hex_digit(
                        self.chars[p + 3],
                    ) {
                        assert(raw[p + 2 - from] == self.chars@[p + 2]);
                        assert(raw[p + 3 - from] == self.chars@[p + 3]);
                        let code = hex_val(self.chars[p + 2]) * 16 + hex_val(self.chars[p + 3]);
                        match char_from_u32(code) {
                            Some(ch) => {
                                acc.push(ch);
                            },
                            None => {
                                return Err(string_of("bad unicode value"));
                            },
                        }
                        p = p + 4;
                    } else {
                        return Err(string_of("bad hex escape"));
                    }
                } else if e == 'u' {
                    if p + 2 >= to || self.chars[p + 2] != '{' {
                        return Err(string_of("expected '{{' in unicode escape"));
                    }
                    assert(raw[p + 2 - from] == self.chars@[p + 2]);
                    let mut j = p + 3;
                    loop
                        invariant
                            self.wf(),
                            from <= p,
                            p + 3 <= j <= to <= self.chars.len(),
                            raw == self.chars@.subrange(from as int, to as int),
                            brace_close(raw, j - from) == brace_close(raw, p + 3 - from),
                            unescape_from(raw, p - from, acc@) == unescape(raw),
                            p + 2 < to,
                            raw[p - from] == '\\',
                            raw[p + 1 - from] == 'u',
                            raw[p + 2 - from] == '{',
                        ensures
                            p + 3 <= j < to,
                            brace_close(raw, p + 3 - from) == Ok::<int, Seq<char>>(j - from),
                        decreases to - j,
                    {
                        if j >= to {
                            return Err(string_of("unterminated unicode escape"));
                        }
                        let d = self.chars[j];
                        assert(raw[j - from] == d);
                        if d == '}' {
                            break;
                        }
                        if ascii_hex_digit(d) {
                            j = j + 1;
                        } else {
                            return Err(msg_char("invalid char in unicode escape: '", d, "'"));
                        }
                    }
                    assert(raw.subrange(p + 3 - from, j - from) =~= self.chars@.subrange(
                        p + 3,
                        j as int,
                    ));
                    match hex_to_u32(&self.chars, p + 3, j) {
                        None => {
                            return Err(string_of("bad unicode escape"));
                        },
                        Some(v) => match char_from_u32(v) {
                            Some(ch) => {
                                acc.push(ch);
                                p = j + 1;
                            },
                            None => {
                                return Err(string_of("bad unicode value"));
                            },
                        },
                    }
                } else {
                    acc.push('\\');
                    acc.push(e);
                    p = p + 2;
                }
            }
        }
        Ok(acc)
    }

    /// A string literal whose opening quote is consumed.
    fn read_string(&mut self) -> (r: TokenKind)
        requires
            old(self).wf(),
        ensures
            final(self).wf(),
            final(self).chars == old(self).chars,
            (r.kview(), final(self).state()) == scan_string(old(self).chars@, old(self).state()),
    {
        let ghost s = self.chars@;
        let ghost v0 = self.chars;
        let ghost st0 = self.state();
        let start = self.idx;
        loop
            invariant
                self.wf(),
                self.chars@ == s,
                self.chars == v0,
                v0 == old(self).chars,
                st0 == old(self).state(),
                start == st0.idx,
                start <= self.idx,
                string_close(s, self.state()) == string_close(s, st0),
            decreases s.len() - self.idx,
        {
            let ghost cur = self.state();
            match self.advance() {
                None => {
                    assert(string_close(s, cur) == (cur, false));
                    return TokenKind::Error(string_of("unterminated string literal"));
                },
                Some(c) => {
                    if c == '\\' {
                        self.advance();
                    } else if c == '"' {
                        assert(string_close(s, cur) == (self.state(), true));
                        let raw_end = self.idx - 1;
                        return match self.unescape_range(start, raw_end) {
                            Ok(v) => TokenKind::StringLiteral(v),
                            Err(m) => TokenKind::Error(m),
                        };
                    } else if c == '\n' {
                        return TokenKind::Error(string_of("unterminated string literal"));
                    }
                },
            }
        }
    }

    /// The two hex digits of a `\x` escape.
    fn read_hex_escape(&mut self) -> (r: Result<char, String>)
        requires
            old(self).wf(),
        ensures
            final(self).wf(),
            final(self).chars == old(self).chars,
            char_result_is(r, hex_escape2(old(self).chars@, old(self).state()).0),
            final(self).state() == hex_escape2(old(self).chars@, old(self).state()).1,
    {
        match self.advance() {
            None => Err(string_of("unterminated hex escape")),
            Some(a) => {
                if !ascii_hex_digit(a) {
                    return Err(msg_char("invalid hex digit '", a, "' in escape"));
                }
                match self.advance() {
                    None => Err(string_of("unterminated hex escape")),
                    Some(b) => {
                        if !ascii_hex_digit(b) {
                            return Err(msg_char("invalid hex digit '", b, "' in escape"));
                        }
                        let code = hex_val(a) * 16 + hex_val(b);
                        match char_from_u32(code) {
                            Some(ch) => Ok(ch),
                            None => Err(string_of("invalid unicode value")),
                        }
                    },
                }
            },
        }
    }

    /// The hex digits of a `\u{..}` escape, stopping before the closing brace.
    fn read_hex_escape_until(&mut self) -> (r: Result<char, String>)
        requires
            old(self).wf(),
        ensures
            final(self).wf(),
            final(self).chars == old(self).chars,
            char_result_is(r, hex_until_close(old(self).chars@, old(self).state()).0),
            final(self).state() == hex_until_close(old(self).chars@, old(self).state()).1,
    {
        let start = self.idx;
        self.skip_hex();
        proof {
            lemma_skips(self.chars@, old(self).state());
        }
        match self.peek() {
            None => Err(string_of("unterminated unicode escape")),
            Some(c) => {
                if c != '}' {
                    return Err(msg_char("invalid hex digit '", c, "' in unicode escape"));
                }
                if self.idx == start {
                    return Err(string_of("empty unicode escape"));
                }
                let mut bad = string_of("invalid unicode value '\\u{");
                let hex = string_from_chars(&self.chars, start, self.idx);
                push_str(&mut bad, hex.as_str());
                push_str(&mut bad, "}'");
                match hex_to_u32(&self.chars, start, self.idx) {
                    Some(v) => match char_from_u32(v) {
                        Some(ch) => Ok(ch),
                        None => Err(bad),
                    },
                    None => Err(bad),
                }
            },
        }
    }

    /// An escape sequence in a char literal, after its backslash.
    fn read_escape(&mut self) -> (r: Result<char, String>)
        requires
            old(self).wf(),
        ensures
            final(self).wf(),
            final(self).chars == old(self).chars,
            char_result_is(r, read_escape(old(self).chars@, old(self).state()).0),
            final(self).state() == read_escape(old(self).chars@, old(self).state()).1,
    {
        match self.advance() {
            None => Err(string_of("unterminated escape sequence")),
            Some(c) => {
                if c == 'n' {
                    Ok('\n')
                } else if c == 't' {
                    Ok('\t')
                } else if c == 'r' {
                    Ok('\r')
                } else if c == '0' {
                    Ok('\0')
                } else if c == '\\' {
                    Ok('\\')
                } else if c == '"' {
                    Ok('"')
                } else if c == '\'' {
                    Ok('\'')
                } else if c == 'x' {
                    self.read_hex_escape()
                } else if c == 'u' {
                    let open = self.advance();
                    let open_ok = match open {
                        Some(b) => b == '{',
                        None => false,
                    };
                    if !open_ok {
                        return Err(string_of("expected '{{' after \\u"));
                    }
                    let result = self.read_hex_escape_until();
                    let close = self.advance();
                    let close_ok = match close {
                        Some(b) => b == '}',
                        None => false,
                    };
                    if !close_ok {
                        return Err(string_of("expected '}}' after unicode escape"));
                    }
                    result
                } else {
                    Err(msg_char("invalid escape sequence '\\", c, "'"))
                }
            },
        }
    }

    /// A char literal whose opening quote is consumed.
    fn read_char(&mut self) -> (r: TokenKind)
        requires
            old(self).wf(),
        ensures
            final(self).wf(),
            final(self).chars == old(self).chars,
            (r.kview(), final(self).state()) == scan_char(old(self).chars@, old(self).state()),
    {
        match self.advance() {
            None => TokenKind::Error(string_of("unterminated char literal")),
            Some(c) => {
                if c == '\\' {
                    let escaped = self.read_escape();
                    let close = self.advance();
                    match escaped {
                        Err(m) => TokenKind::Error(m),
                        Ok(ch) => match close {
                            None => TokenKind::Error(string_of("unterminated char literal")),
                            Some(d) => {
                                if d == '\'' {
                                    TokenKind::CharLiteral(ch)
                                } else {
                                    TokenKind::Error(
                                        msg_char(
                                            "expected closing ' after char escape, found '",
                                            d,
                                            "'",
                                        ),
                                    )
                                }
                            },
                        },
                    }
                } else if c == '\'' {
                    TokenKind::Error(string_of("empty char literal"))
                } else {
                    match self.advance() {
                        None => TokenKind::Error(string_of("unterminated char literal")),
                        Some(d) => {
                            if d == '\'' {
                                TokenKind::CharLiteral(c)
                            } else {
                                let mut m = msg_char("expected closing ' after char '", c, "', found '");
                                m.push(d);
                                push_str(&mut m, "'");
                                assert(m@ =~= "expected closing ' after char '"@.push(c)
                                    + "', found '"@.push(d) + "'"@);
                                TokenKind::Error(m)
                            }
                        },
                    }
                }
            },
        }
    }

    /// A number whose first digit, at index `start`, is consumed.
    fn read_number(&mut self, start: usize) -> (r: TokenKind)
        requires
            old(self).wf(),
            start < old(self).idx,
        ensures
            final(self).wf(),
            final(self).chars == old(self).chars,
            (r.kview(), final(self).state()) == scan_number(
                old(self).chars@,
                old(self).state(),
                start as nat,
            ),
    {
        let ghost s = self.chars@;
        self.skip_digits();
        proof {
            lemma_skips(s, old(self).state());
        }
        let mut is_float = false;
        let fraction = match self.peek() {
            Some(dot) => dot == '.' && match self.peek_next() {
                Some(d) => ascii_digit(d),
                None => false,
            },
            None => false,
        };
        if fraction {
            is_float = true;
            self.advance();
            proof {
                lemma_skips(s, self.state());
            }
            self.skip_digits();
        }
        let exponent = match self.peek() {
            Some(e) => e == 'e' || e == 'E',
            None => false,
        };
        if exponent {
            self.advance();
            let sign = match self.peek() {
                Some(sg) => sg == '+' || sg == '-',
                None => false,
            };
            if sign {
                self.advance();
            }
            assert(start <= self.idx);
            let digit = match self.peek() {
                Some(d) => ascii_digit(d),
                None => false,
            };
            if !digit {
                return TokenKind::Error(
                    string_of("invalid float literal: expected digit after exponent"),
                );
            }
            let ghost before = self.state();
            self.skip_digits();
            proof {
                lemma_skips(s, before);
            }
            return TokenKind::FloatLiteral(string_from_chars(&self.chars, start, self.idx));
        }
        let raw = string_from_chars(&self.chars, start, self.idx);
        if is_float {
            TokenKind::FloatLiteral(raw)
        } else {
            TokenKind::IntLiteral(raw)
        }
    }

    /// An identifier or keyword whose first character, at index `start`, is consumed.
    fn read_identifier_or_keyword(&mut self, start: usize) -> (r: TokenKind)
        requires
            old(self).wf(),
            start < old(self).idx,
        ensures
            final(self).wf(),
            final(self).chars == old(self).chars,
            (r.kview(), final(self).state()) == scan_word(
                old(self).chars@,
                old(self).state(),
                start as nat,
            ),
    {
        self.skip_ident();
        proof {
            lemma_skips(self.chars@, old(self).state());
        }
        let word = string_from_chars(&self.chars, start, self.idx);
        match keyword_kind(&word) {
            Some(k) => k,
            None => TokenKind::Identifier(word),
        }
    }

    /// `long` when the next character is `second` (which is then consumed), else `short`.
    fn pair(&mut self, second: char, long: TokenKind, short: TokenKind) -> (r: TokenKind)
        requires
            old(self).wf(),
            long.is_plain(),
            short.is_plain(),
        ensures
            final(self).wf(),
            final(self).chars == old(self).chars,
            (r.kview(), final(self).state()) == pair(
                old(self).chars@,
                old(self).state(),
                second,
                long,
                short,
            ),
    {
        let hit = match self.peek() {
            Some(d) => d == second,
            None => false,
        };
        if hit {
            self.advance();
            long
        } else {
            short
        }
    }

    /// Punctuation and operators; `c` is consumed.
    fn scan_punct(&mut self, c: char) -> (r: TokenKind)
        requires
            old(self).wf(),
        ensures
            final(self).wf(),
            final(self).chars == old(self).chars,
            (r.kview(), final(self).state()) == scan_punct(old(self).chars@, old(self).state(), c),
    {
        if c == ';' {
            TokenKind::Semicolon
        } else if c == ':' {
            TokenKind::Colon
        } else if c == ',' {
            TokenKind::Comma
        } else if c == '(' {
            TokenKind::LParen
        } else if c == ')' {
            TokenKind::RParen
        } else if c == '{' {
            TokenKind::LBrace
        } else if c == '}' {
            TokenKind::RBrace
        } else if c == '[' {
            TokenKind::LBracket
        } else if c == ']' {
            TokenKind::RBracket
        } else if c == '?' {
            TokenKind::Question
        } else if c == '%' {
            TokenKind::Percent
        } else if c == '=' {
            let eq = match self.peek() {
                Some(d) => d == '=',
                None => false,
            };
            if eq {
                self.advance();
                TokenKind::EqEq
            } else {
                self.pair('>', TokenKind::FatArrow, TokenKind::Equals)
            }
        } else if c == '!' {
            self.pair('=', TokenKind::BangEq, TokenKind::Bang)
        } else if c == '<' {
            self.pair('=', TokenKind::LessEq, TokenKind::Less)
        } else if c == '>' {
            self.pair('=', TokenKind::GreaterEq, TokenKind::Greater)
        } else if c == '|' {
            let bar = match self.peek() {
                Some(d) => d == '|',
                None => false,
            };
            if bar {
                self.advance();
                TokenKind::PipePipe
            } else {
                self.pair('>', TokenKind::PipeGreater, TokenKind::Pipe)
            }
        } else if c == '&' {
            match self.peek() {
                Some(d) => {
                    if d == '&' {
                        self.advance();
                        TokenKind::AmpAmp
                    } else if d == '_' || is_alphabetic(d) {
                        let ghost before = *self;
                        let saved_pos = self.pos;
                        let saved_idx = self.idx;
                        let saved_line = self.line;
                        let saved_column = self.column;
                        self.advance();
                        self.skip_ident();
                        proof {
                            lemma_skips(self.chars@, step(self.chars@, before.state()));
                        }
                        let word = string_from_chars(&self.chars, saved_idx, self.idx);
                        if word == string_of("mut") {
                            TokenKind::AmpMut
                        } else {
                            self.pos = saved_pos;
                            self.idx = saved_idx;
                            self.line = saved_line;
                            self.column = saved_column;
                            TokenKind::Amp
                        }
                    } else {
                        TokenKind::Amp
                    }
                },
                None => TokenKind::Amp,
            }
        } else if c == '-' {
            self.pair('>', TokenKind::Arrow, TokenKind::Minus)
        } else if c == '+' {
            TokenKind::Plus
        } else if c == '*' {
            TokenKind::Star
        } else if c == '/' {
            TokenKind::Slash
        } else if c == '.' {
            self.pair('.', TokenKind::DotDot, TokenKind::Dot)
        } else {
            TokenKind::Error(msg_char("unexpected character '", c, "'"))
        }
    }

    /// Reads the next token.  Whitespace and comments before it are skipped; at the end
    /// of the source the token is `Eof`, with an empty span.  A `/` never starts a comment
    /// here: the skipping before the token has already consumed every comment.
    pub fn next_token(&mut self) -> (t: Token)
        requires
            old(self).wf(),
        ensures
            final(self).wf(),
            final(self).source() == old(self).source(),
            token_is(t, old(self).source(), next_lexeme(old(self).source(), old(self).state()).0),
            final(self).state() == next_lexeme(old(self).source(), old(self).state()).1,
    {
        self.skip_whitespace_and_comments();
        let start = self.pos;
        let start_idx = self.idx;
        let line = self.line;
        let column = self.column;
        let kind = match self.advance() {
            None => TokenKind::Eof,
            Some(c) => {
                if c == '_' || is_alphabetic(c) {
                    self.read_identifier_or_keyword(start_idx)
                } else if ascii_digit(c) {
                    self.read_number(start_idx)
                } else if c == '"' {
                    self.read_string()
                } else if c == '\'' {
                    self.read_char()
                } else {
                    self.scan_punct(c)
                }
            },
        };
        let end = self.pos;
        Token::new(kind, Span::new(start, end), line, column)
    }

    /// The next token, or `None` once the source is exhausted.
    pub fn next(&mut self) -> (r: Option<Token>)
        requires
            old(self).wf(),
        ensures
            final(self).wf(),
            final(self).source() == old(self).source(),
            final(self).state() == next_lexeme(old(self).source(), old(self).state()).1,
            ({
                let lx = next_lexeme(old(self).source(), old(self).state()).0;
                &&& lx.kind == KindView::Plain(TokenKind::Eof) ==> r is None
                &&& lx.kind != KindView::Plain(TokenKind::Eof) ==> (r matches Some(t) && token_is(
                    t,
                    old(self).source(),
                    lx,
                ))
            }),
    {
        let t = self.next_token();
        if TokenKind::Eof.matches_plain(&t.kind) {
            None
        } else {
            Some(t)
        }
    }

    /// All remaining tokens, up to (not including) `Eof`.
    pub fn tokenize(self) -> (r: Vec<Token>)
        requires
            self.wf(),
        ensures
            r.len() == lexemes(self.source(), self.state()).len(),
            forall|i: int|
                0 <= i < r.len() ==> token_is(
                    #[trigger] r[i],
                    self.source(),
                    lexemes(self.source(), self.state())[i],
                ),
    {
        let ghost s = self.source();
        let ghost st0 = self.state();
        let mut lexer = self;
        let mut out: Vec<Token> = Vec::new();
        let ghost mut done: Seq<Lexeme> = Seq::empty();
        loop
            invariant
                lexer.wf(),
                lexer.source() == s,
                out.len() == done.len(),
                done + lexemes(s, lexer.state()) == lexemes(s, st0),
                forall|i: int| 0 <= i < out.len() ==> token_is(#[trigger] out[i], s, done[i]),
            ensures
                out.len() == lexemes(s, st0).len(),
                forall|i: int|
                    0 <= i < out.len() ==> token_is(#[trigger] out[i], s, lexemes(s, st0)[i]),
            decreases s.len() - lexer.idx,
        {
            let ghost cur = lexer.state();
            proof {
                lemma_next_lexeme(s, cur);
            }
            let t = lexer.next_token();
            if TokenKind::Eof.matches_plain(&t.kind) {
                assert(lexemes(s, cur) =~= Seq::<Lexeme>::empty());
                assert(done =~= lexemes(s, st0));
                break;
            }
            let ghost lx = next_lexeme(s, cur).0;
            assert(lexemes(s, cur) =~= seq![lx] + lexemes(s, lexer.state()));
            out.push(t);
            proof {
                done = done.push(lx);
                assert(done + lexemes(s, lexer.state()) =~= lexemes(s, st0));
            }
        }
        out
    }
}

/// The value of a hex digit.
fn hex_val(c: char) -> (r: u32)
    requires
        is_hex_digit(c),
    ensures
        r == hex_value(c),
        r < 16,
{
    match hex_digit_value(c) {
        Some(v) => v,
        None => 0,
    }
}

/// An exec string result agrees with a spec result over character sequences.
pub open spec fn result_is(r: Result<String, String>, e: Result<Seq<char>, Seq<char>>) -> bool {
    match (r, e) {
        (Ok(a), Ok(b)) => a@ == b,
        (Err(a), Err(b)) => a@ == b,
        _ => false,
    }
}

/// An exec char result agrees with a spec result.
pub open spec fn char_result_is(r: Result<char, String>, e: Result<char, Seq<char>>) -> bool {
    match (r, e) {
        (Ok(a), Ok(b)) => a == b,
        (Err(a), Err(b)) => a@ == b,
        _ => false,
    }
}

} // verus!
