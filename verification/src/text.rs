//! Character classification and string building used by the lexer and by
//! the diagnostics of every later phase.

use vstd::prelude::*;
use vstd::string::StringExecFns;

verus! {

/// `String::push` appends one character to the end of the string.
pub assume_specification[ std::string::String::push ](s: &mut std::string::String, ch: char)
    ensures
        final(s)@ == old(s)@.push(ch),
;

/// Whether `c` has the Unicode `Alphabetic` property, as `char::is_alphabetic` reports it.
pub uninterp spec fn unicode_alphabetic(c: char) -> bool;

/// Whether `c` is alphabetic or numeric, as `char::is_alphanumeric` reports it.
pub uninterp spec fn unicode_alphanumeric(c: char) -> bool;

/// An ASCII letter, `a` to `z` or `A` to `Z`.
pub open spec fn ascii_letter(c: char) -> bool {
    ('a' <= c <= 'z') || ('A' <= c <= 'Z')
}

/// Whether `c` is alphabetic: within ASCII, exactly the letters; beyond it, the
/// Unicode `Alphabetic` property.
pub open spec fn alphabetic(c: char) -> bool {
    if (c as u32) < 0x80 {
        ascii_letter(c)
    } else {
        unicode_alphabetic(c)
    }
}

/// Whether `c` is alphanumeric: within ASCII, exactly the letters and digits; beyond
/// it, what `char::is_alphanumeric` reports.
pub open spec fn alphanumeric(c: char) -> bool {
    if (c as u32) < 0x80 {
        ascii_letter(c) || is_digit(c)
    } else {
        unicode_alphanumeric(c)
    }
}

/// Calls `char::is_alphabetic`; its result is named `unicode_alphabetic`, since the
/// Unicode tables it consults take pages to state. Within ASCII the `Alphabetic`
/// property holds of the letters and of nothing else, which the contract states;
/// beyond ASCII it states nothing of particular characters.
#[verifier::external_body]
pub(crate) fn is_alphabetic(c: char) -> (r: bool)
    ensures
        r == unicode_alphabetic(c),
        (c as u32) < 0x80 ==> (r <==> ascii_letter(c)),
{
    c.is_alphabetic()
}

/// Calls `char::is_alphanumeric`; its result is named `unicode_alphanumeric`.
/// As documented, it holds of every alphabetic character; within ASCII it holds
/// of the letters and digits and of nothing else.
#[verifier::external_body]
pub(crate) fn is_alphanumeric(c: char) -> (r: bool)
    ensures
        r == unicode_alphanumeric(c),
        unicode_alphabetic(c) ==> r,
        (c as u32) < 0x80 ==> (r <==> (ascii_letter(c) || is_digit(c))),
{
    c.is_alphanumeric()
}

/// A code point is a Unicode scalar value when it is at most 0x10FFFF and not a surrogate.
pub open spec fn is_scalar_value(v: u32) -> bool {
    v <= 0x10FFFF && !(0xD800 <= v <= 0xDFFF)
}

/// `char::from_u32` gives the char with code point `v` exactly when `v` is a Unicode
/// scalar value, and `None` otherwise (as its documentation states).
#[verifier::external_body]
pub(crate) fn char_from_u32(v: u32) -> (r: Option<char>)
    ensures
        is_scalar_value(v) ==> r == Some(v as char),
        !is_scalar_value(v) ==> r is None,
{
    char::from_u32(v)
}

/// Number of bytes of the UTF-8 encoding of `c` (what `char::len_utf8` returns).
pub open spec fn utf8_len(c: char) -> nat {
    if (c as u32) < 0x80 {
        1
    } else if (c as u32) < 0x800 {
        2
    } else if (c as u32) < 0x10000 {
        3
    } else {
        4
    }
}

pub fn len_utf8(c: char) -> (n: usize)
    ensures
        n == utf8_len(c),
{
    let v = c as u32;
    if v < 0x80 {
        1
    } else if v < 0x800 {
        2
    } else if v < 0x10000 {
        3
    } else {
        4
    }
}

/// Number of bytes of the UTF-8 encoding of a character sequence.
pub open spec fn utf8_total(s: Seq<char>) -> nat
    decreases s.len(),
{
    if s.len() == 0 {
        0
    } else {
        utf8_total(s.drop_last()) + utf8_len(s.last())
    }
}

pub proof fn lemma_utf8_total_step(s: Seq<char>, i: int)
    requires
        0 <= i < s.len(),
    ensures
        utf8_total(s.take(i + 1)) == utf8_total(s.take(i)) + utf8_len(s[i]),
{
    assert(s.take(i + 1).drop_last() =~= s.take(i));
}

pub proof fn lemma_utf8_total_mono(s: Seq<char>, i: int, j: int)
    requires
        0 <= i <= j <= s.len(),
    ensures
        utf8_total(s.take(i)) <= utf8_total(s.take(j)),
    decreases j - i,
{
    if i < j {
        lemma_utf8_total_step(s, j - 1);
        lemma_utf8_total_mono(s, i, j - 1);
    }
}

/// ASCII decimal digit, as `char::is_ascii_digit` documents it.
pub open spec fn is_digit(c: char) -> bool {
    '0' <= c <= '9'
}

/// ASCII hexadecimal digit, as `char::is_ascii_hexdigit` documents it.
pub open spec fn is_hex_digit(c: char) -> bool {
    ('0' <= c <= '9') || ('a' <= c <= 'f') || ('A' <= c <= 'F')
}

/// Value of a hexadecimal digit (what `char::to_digit(16)` gives for one).
pub open spec fn hex_value(c: char) -> u32 {
    if '0' <= c <= '9' {
        (c as u32 - '0' as u32) as u32
    } else if 'a' <= c <= 'f' {
        (c as u32 - 'a' as u32 + 10) as u32
    } else {
        (c as u32 - 'A' as u32 + 10) as u32
    }
}

pub fn ascii_digit(c: char) -> (r: bool)
    ensures
        r == is_digit(c),
{
    '0' <= c && c <= '9'
}

pub fn ascii_hex_digit(c: char) -> (r: bool)
    ensures
        r == is_hex_digit(c),
{
    ('0' <= c && c <= '9') || ('a' <= c && c <= 'f') || ('A' <= c && c <= 'F')
}

/// The value of a hex digit, or `None` for any other character.
pub fn hex_digit_value(c: char) -> (r: Option<u32>)
    ensures
        is_hex_digit(c) ==> r == Some(hex_value(c)),
        !is_hex_digit(c) ==> r is None,
{
    if '0' <= c && c <= '9' {
        Some(c as u32 - '0' as u32)
    } else if 'a' <= c && c <= 'f' {
        Some(c as u32 - 'a' as u32 + 10)
    } else if 'A' <= c && c <= 'F' {
        Some(c as u32 - 'A' as u32 + 10)
    } else {
        None
    }
}

/// Value of a sequence of hex digits read most significant first.
pub open spec fn hex_number(s: Seq<char>) -> nat
    decreases s.len(),
{
    if s.len() == 0 {
        0
    } else {
        hex_number(s.drop_last()) * 16 + hex_value(s.last()) as nat
    }
}

/// Reading hex digits into a `u32` succeeds exactly when there is at least one digit,
/// every character is a hex digit and the value fits in 32 bits (as `u32::from_str_radix`
/// with radix 16 documents).
pub open spec fn parse_hex_u32(s: Seq<char>) -> Option<u32> {
    if s.len() > 0 && (forall|i: int| 0 <= i < s.len() ==> is_hex_digit(#[trigger] s[i]))
        && hex_number(s) <= u32::MAX {
        Some(hex_number(s) as u32)
    } else {
        None
    }
}

proof fn lemma_hex_number_grows(s: Seq<char>, i: int)
    requires
        0 <= i <= s.len(),
        forall|k: int| 0 <= k < s.len() ==> is_hex_digit(#[trigger] s[k]),
    ensures
        hex_number(s.take(i)) <= hex_number(s),
    decreases s.len() - i,
{
    if i < s.len() {
        lemma_hex_number_grows(s, i + 1);
        assert(s.take(i + 1).drop_last() =~= s.take(i));
        assert(s.take(i + 1).last() == s[i]);
    } else {
        assert(s.take(i) =~= s);
    }
}

/// Parses the characters `s[from..to]` as a hexadecimal `u32`.
pub fn hex_to_u32(s: &Vec<char>, from: usize, to: usize) -> (r: Option<u32>)
    requires
        from <= to <= s.len(),
    ensures
        r == parse_hex_u32(s@.subrange(from as int, to as int)),
{
    let ghost h = s@.subrange(from as int, to as int);
    if from == to {
        return None;
    }
    let mut acc: u64 = 0;
    let mut i: usize = from;
    while i < to
        invariant
            from <= i <= to <= s.len(),
            h == s@.subrange(from as int, to as int),
            acc == hex_number(h.take(i - from)),
            acc <= u32::MAX,
            forall|k: int| 0 <= k < i - from ==> is_hex_digit(#[trigger] h[k]),
        decreases to - i,
    {
        let c = s[i];
        assert(h[i - from] == c);
        match hex_digit_value(c) {
            None => {
                return None;
            },
            Some(d) => {
                assert(h.take(i - from + 1).drop_last() =~= h.take(i - from));
                let next = acc * 16 + d as u64;
                if next > 0xFFFF_FFFF {
                    proof {
                        assert(hex_number(h.take(i - from + 1)) == next);
                        if forall|k: int| 0 <= k < h.len() ==> is_hex_digit(#[trigger] h[k]) {
                            lemma_hex_number_grows(h, i - from + 1);
                        }
                    }
                    return None;
                }
                acc = next;
                i = i + 1;
            },
        }
    }
    assert(h.take(h.len() as int) =~= h);
    Some(acc as u32)
}

/// The characters of `s`, in order.
pub fn chars_of(s: &str) -> (r: Vec<char>)
    ensures
        r@ == s@,
{
    broadcast use vstd::string::group_string_axioms;
    let mut chars: Vec<char> = Vec::new();
    for c in it: s.chars()
        invariant
            chars@ == it.seq().take(it.index() as int),
    {
        chars.push(c);
    }
    assert(chars@ =~= s@);
    chars
}

/// A new string holding `s`.
pub fn string_of(s: &str) -> (r: String)
    ensures
        r@ == s@,
{
    String::from_str(s)
}

/// Appends `s` to `out`.
pub fn push_str(out: &mut String, s: &str)
    ensures
        final(out)@ == old(out)@ + s@,
{
    out.append(s);
}

/// A new string holding the characters `chars[from..to]`.
pub fn string_from_chars(chars: &Vec<char>, from: usize, to: usize) -> (r: String)
    requires
        from <= to <= chars.len(),
    ensures
        r@ == chars@.subrange(from as int, to as int),
{
    let mut r = String::new();
    let mut i = from;
    while i < to
        invariant
            from <= i <= to <= chars.len(),
            r@ == chars@.subrange(from as int, i as int),
        decreases to - i,
    {
        r.push(chars[i]);
        assert(chars@.subrange(from as int, i + 1) =~= chars@.subrange(from as int, i as int).push(
            chars@[i as int],
        ));
        i = i + 1;
    }
    r
}

/// A string of the single character `c`.
pub fn string_of_char(c: char) -> (r: String)
    ensures
        r@ == seq![c],
{
    let mut r = String::new();
    r.push(c);
    assert(r@ =~= seq![c]);
    r
}


/// The decimal digits of `n`, most significant first, without leading zeros
/// ("0" for zero).
pub open spec fn decimal(n: nat) -> Seq<char>
    decreases n,
{
    if n < 10 {
        seq![digit_char(n)]
    } else {
        decimal(n / 10).push(digit_char(n % 10))
    }
}

/// The character of the decimal digit `d`.
pub open spec fn digit_char(d: nat) -> char {
    if d < 10 {
        ((d + 48) as u8) as char
    } else {
        '?'
    }
}

/// The decimal digits of `n`.
pub fn decimal_string(n: usize) -> (r: String)
    ensures
        r@ == decimal(n as nat),
{
    // digits from the least significant one
    let mut digits: Vec<char> = Vec::new();
    let mut m: usize = n;
    loop
        invariant_except_break
            decimal(n as nat) == decimal(m as nat) + digits@.reverse(),
        ensures
            decimal(n as nat) == digits@.reverse(),
        decreases m,
    {
        let d = m % 10;
        let c = ((d as u8) + 48u8) as char;
        assert(c == digit_char(d as nat));
        let ghost old_digits = digits@;
        digits.push(c);
        assert(digits@.reverse() =~= seq![c] + old_digits.reverse());
        if m < 10 {
            assert(decimal(m as nat) == seq![c]);
            break;
        }
        assert(decimal(m as nat) == decimal((m / 10) as nat).push(c));
        m = m / 10;
        assert(decimal(n as nat) =~= decimal(m as nat) + digits@.reverse());
    }
    let mut r = String::new();
    let mut i: usize = digits.len();
    while i > 0
        invariant
            i <= digits.len(),
            r@ == digits@.reverse().take((digits.len() - i) as int),
        decreases i,
    {
        i = i - 1;
        r.push(digits[i]);
        assert(digits@.reverse().take((digits.len() - i) as int) =~= digits@.reverse().take(
            (digits.len() - i - 1) as int,
        ).push(digits@[i as int]));
    }
    assert(digits@.reverse().take(digits.len() as int) =~= digits@.reverse());
    r
}

} // verus!
