//! The grammar of tokens, as functions from the characters of the stream and
//! a cursor to what is read there. Spans count characters of the stream.

use crate::parser::chars::{digit_of, radix_of, whitespace, word_part, word_start, alphabetic};
use crate::parser::error::ErrorType;
use crate::parser::parse_node::{
    keyword_of, symbol_of, IdentKeyword, Keyword, Number, RealLiteral, Symbol,
};
use crate::parser::view::Spanned;
use crate::string_name::{handle_of, with_name, StringName};
use vstd::prelude::*;
use vstd::utf8::is_scalar;

verus! {

/// Where the parser stands: the index of the next character, and the texts
/// interned so far.
pub struct Cursor {
    pub at: nat,
    pub names: Seq<Seq<char>>,
}

impl Cursor {
    /// The cursor at another index, with the same names.
    pub open spec fn to(self, at: nat) -> Cursor {
        Cursor { at, names: self.names }
    }

    /// The cursor, but no further back than `floor`. The grammar never reads
    /// backwards, so where it applies this to the cursor behind a piece that
    /// was read from `floor` on, the cursor stays as it is; that it is applied
    /// shows at once that the grammar ends.
    pub open spec fn after(self, floor: Cursor) -> Cursor {
        if self.at < floor.at {
            Cursor { at: floor.at, names: self.names }
        } else {
            self
        }
    }
}

/// What an attempt to read a piece of syntax gives: the piece and the cursor
/// behind it; nothing, where the text holds no such piece; or an error, where
/// the piece starts and then goes wrong.
pub enum Parsed<T> {
    Hit { value: T, next: Cursor },
    Miss,
    Fail { error: ErrorType, start: nat, end: nat },
}

/// A class of characters.
pub enum Class {
    /// Characters that continue a word.
    WordPart,
    /// Digits of a radix.
    Digit(nat),
    /// One character.
    Exactly(char),
}

/// Whether a character belongs to a class.
pub open spec fn in_class(class: Class, c: char) -> bool {
    match class {
        Class::WordPart => word_part(c),
        Class::Digit(radix) => digit_of(c, radix) is Some,
        Class::Exactly(one) => c == one,
    }
}

/// Index behind the longest run of characters of a class that starts at `from`.
pub open spec fn run_end(cs: Seq<char>, from: nat, class: Class) -> nat
    decreases cs.len() - from,
{
    if from < cs.len() && in_class(class, cs[from as int]) {
        run_end(cs, from + 1, class)
    } else {
        from
    }
}

/// A run ends inside the text, holds only characters of the class, and cannot
/// be made longer.
pub proof fn lemma_run_end(cs: Seq<char>, from: nat, class: Class)
    requires
        from <= cs.len(),
    ensures
        from <= run_end(cs, from, class) <= cs.len(),
        forall|i: int| from <= i < run_end(cs, from, class) ==> in_class(class, #[trigger] cs[i]),
        run_end(cs, from, class) < cs.len() ==> !in_class(
            class,
            cs[run_end(cs, from, class) as int],
        ),
    decreases cs.len() - from,
{
    if from < cs.len() && in_class(class, cs[from as int]) {
        lemma_run_end(cs, from + 1, class);
    }
}

/// A run whose first characters are known to be of the class ends where the
/// run behind them ends.
pub proof fn lemma_run_from(cs: Seq<char>, from: nat, mid: nat, class: Class)
    requires
        from <= mid <= cs.len(),
        forall|i: int| from <= i < mid ==> in_class(class, #[trigger] cs[i]),
    ensures
        run_end(cs, from, class) == run_end(cs, mid, class),
        mid <= run_end(cs, from, class) <= cs.len(),
    decreases mid - from,
{
    lemma_run_end(cs, mid, class);
    if from < mid {
        lemma_run_from(cs, from + 1, mid, class);
    }
}

/// Index behind the first line feed at or after `from`, or the end of the text.
pub open spec fn line_end(cs: Seq<char>, from: nat) -> nat
    decreases cs.len() - from,
{
    if from >= cs.len() {
        cs.len()
    } else if cs[from as int] == '\n' {
        from + 1
    } else {
        line_end(cs, from + 1)
    }
}

/// Index behind the first `*/` that starts at or after `from`, or the end of
/// the text.
pub open spec fn comment_end(cs: Seq<char>, from: nat) -> nat
    decreases cs.len() - from,
{
    if from >= cs.len() {
        cs.len()
    } else if cs[from as int] == '*' && from + 1 < cs.len() && cs[(from + 1) as int] == '/' {
        from + 2
    } else {
        comment_end(cs, from + 1)
    }
}

/// A line ends at or behind where it is entered, inside the text.
pub proof fn lemma_line_end(cs: Seq<char>, from: nat)
    requires
        from <= cs.len(),
    ensures
        from <= line_end(cs, from) <= cs.len(),
    decreases cs.len() - from,
{
    if from < cs.len() && cs[from as int] != '\n' {
        lemma_line_end(cs, from + 1);
    }
}

/// A block comment ends at or behind where it is entered, inside the text.
pub proof fn lemma_comment_end(cs: Seq<char>, from: nat)
    requires
        from <= cs.len(),
    ensures
        from <= comment_end(cs, from) <= cs.len(),
    decreases cs.len() - from,
{
    if from < cs.len() && !(cs[from as int] == '*' && from + 1 < cs.len() && cs[(from + 1) as int] == '/') {
        lemma_comment_end(cs, from + 1);
    }
}

/// Whether a comment of the kind that `second` opens starts at `at`.
pub open spec fn opens_comment(cs: Seq<char>, at: nat, second: char) -> bool {
    at + 1 < cs.len() && cs[at as int] == '/' && cs[(at + 1) as int] == second
}

/// Index of the first character at or after `at` that is neither white space
/// nor part of a comment. A line comment runs from `//` through the end of the
/// line; a block comment from `/*` through the next `*/`, or to the end of the
/// text where none follows.
pub open spec fn trivia_end(cs: Seq<char>, at: nat) -> nat
    decreases cs.len() - at,
{
    if at >= cs.len() {
        at
    } else if whitespace(cs[at as int]) {
        trivia_end(cs, at + 1)
    } else if opens_comment(cs, at, '/') {
        proof {
            lemma_line_end(cs, at + 2);
        }
        trivia_end(cs, line_end(cs, at + 2))
    } else if opens_comment(cs, at, '*') {
        proof {
            lemma_comment_end(cs, at + 2);
        }
        trivia_end(cs, comment_end(cs, at + 2))
    } else {
        at
    }
}

/// Skipping ends inside the text, at a character that starts no trivia; to
/// skip again changes nothing.
pub proof fn lemma_trivia_end(cs: Seq<char>, at: nat)
    requires
        at <= cs.len(),
    ensures
        at <= trivia_end(cs, at) <= cs.len(),
        trivia_end(cs, trivia_end(cs, at)) == trivia_end(cs, at),
    decreases cs.len() - at,
{
    if at >= cs.len() {
        // nothing is left to skip
    } else if whitespace(cs[at as int]) {
        lemma_trivia_end(cs, at + 1);
    } else if opens_comment(cs, at, '/') {
        lemma_line_end(cs, at + 2);
        lemma_trivia_end(cs, line_end(cs, at + 2));
    } else if opens_comment(cs, at, '*') {
        lemma_comment_end(cs, at + 2);
        lemma_trivia_end(cs, comment_end(cs, at + 2));
    }
}

// ---------------------------------------------------------------------------
// Words

/// A word: the longest run of word characters that starts with a letter or an
/// underscore, behind any trivia. It is a keyword if the table of keywords
/// holds it, and an identifier otherwise; an identifier is interned.
#[verifier::opaque]
pub open spec fn ident_or_keyword(cs: Seq<char>, c: Cursor) -> Parsed<Spanned<IdentKeyword>> {
    let p = trivia_end(cs, c.at);
    if p < cs.len() && word_start(cs[p as int]) {
        let q = run_end(cs, p + 1, Class::WordPart);
        let text = cs.subrange(p as int, q as int);
        match keyword_of(text) {
            Some(k) => Parsed::Hit {
                value: Spanned { data: IdentKeyword::Keyword(k), start: p, end: q },
                next: c.to(q),
            },
            None => Parsed::Hit {
                value: Spanned {
                    data: IdentKeyword::Ident(StringName(handle_of(c.names, text) as usize)),
                    start: p,
                    end: q,
                },
                next: Cursor { at: q, names: with_name(c.names, text) },
            },
        }
    } else {
        Parsed::Miss
    }
}

/// An identifier: a word that is no keyword.
#[verifier::opaque]
pub open spec fn ident(cs: Seq<char>, c: Cursor) -> Parsed<Spanned<StringName>> {
    match ident_or_keyword(cs, c) {
        Parsed::Hit { value, next } => match value.data {
            IdentKeyword::Ident(name) => Parsed::Hit {
                value: Spanned { data: name, start: value.start, end: value.end },
                next,
            },
            IdentKeyword::Keyword(_) => Parsed::Miss,
        },
        _ => Parsed::Miss,
    }
}

/// A keyword: a word that the table of keywords holds.
#[verifier::opaque]
pub open spec fn keyword(cs: Seq<char>, c: Cursor) -> Parsed<Spanned<Keyword>> {
    match ident_or_keyword(cs, c) {
        Parsed::Hit { value, next } => match value.data {
            IdentKeyword::Keyword(k) => Parsed::Hit {
                value: Spanned { data: k, start: value.start, end: value.end },
                next,
            },
            IdentKeyword::Ident(_) => Parsed::Miss,
        },
        _ => Parsed::Miss,
    }
}

/// What was read, if it is kept.
pub open spec fn chosen<T>(read: Parsed<Spanned<T>>, kept: bool) -> Parsed<Spanned<T>> {
    match read {
        Parsed::Hit { .. } => if kept {
            read
        } else {
            Parsed::Miss
        },
        _ => read,
    }
}

/// What was read, if its data is the one asked for.
pub open spec fn only<T>(read: Parsed<Spanned<T>>, wanted: T) -> Parsed<Spanned<T>> {
    match read {
        Parsed::Hit { value, next } => if value.data == wanted {
            read
        } else {
            Parsed::Miss
        },
        _ => read,
    }
}

/// One given identifier, which was interned before.
#[verifier::opaque]
pub open spec fn ident_eq(cs: Seq<char>, c: Cursor, name: StringName) -> Parsed<
    Spanned<StringName>,
> {
    match ident(cs, c) {
        Parsed::Hit { value, next } => if value.data == name && next.names == c.names {
            Parsed::Hit { value, next }
        } else {
            Parsed::Miss
        },
        _ => Parsed::Miss,
    }
}

/// One given keyword.
#[verifier::opaque]
pub open spec fn keyword_eq(cs: Seq<char>, c: Cursor, k: Keyword) -> Parsed<Spanned<Keyword>> {
    only(keyword(cs, c), k)
}

// ---------------------------------------------------------------------------
// Symbols

/// Whether the `n` characters from `p` on spell a symbol.
pub open spec fn spells_symbol(cs: Seq<char>, p: nat, n: nat) -> bool {
    p + n <= cs.len() && symbol_of(cs.subrange(p as int, (p + n) as int)) is Some
}

/// The greatest length up to `n` at which the characters from `p` on spell a
/// symbol, or zero if they do so at none.
pub open spec fn longest_symbol(cs: Seq<char>, p: nat, n: nat) -> nat
    decreases n,
{
    if n == 0 {
        0
    } else if spells_symbol(cs, p, n) {
        n
    } else {
        longest_symbol(cs, p, (n - 1) as nat)
    }
}

/// A symbol: behind any trivia, the longest run of up to five characters that
/// the table of symbols holds.
#[verifier::opaque]
pub open spec fn symbol(cs: Seq<char>, c: Cursor) -> Parsed<Spanned<Symbol>> {
    let p = trivia_end(cs, c.at);
    let n = longest_symbol(cs, p, 5);
    if n == 0 {
        Parsed::Miss
    } else {
        Parsed::Hit {
            value: Spanned { data: symbol_of(cs.subrange(p as int, (p + n) as int))->0, start: p, end: p + n },
            next: c.to(p + n),
        }
    }
}

/// One given symbol.
#[verifier::opaque]
pub open spec fn symbol_eq(cs: Seq<char>, c: Cursor, s: Symbol) -> Parsed<Spanned<Symbol>> {
    only(symbol(cs, c), s)
}

// ---------------------------------------------------------------------------
// Numbers

/// The number that the digits from `from` up to `to` write in a radix.
pub open spec fn digits_value(cs: Seq<char>, from: nat, to: nat, radix: nat) -> nat
    decreases to,
{
    if to <= from || to > cs.len() {
        0
    } else {
        digits_value(cs, from, (to - 1) as nat, radix) * radix + match digit_of(
            cs[(to - 1) as int],
            radix,
        ) {
            Some(d) => d,
            None => 0,
        }
    }
}

/// One more digit makes the number no smaller.
pub proof fn lemma_digits_value_step(cs: Seq<char>, from: nat, to: nat, radix: nat)
    requires
        from <= to < cs.len(),
        radix >= 1,
    ensures
        digits_value(cs, from, to + 1, radix) == digits_value(cs, from, to, radix) * radix + (
        match digit_of(cs[to as int], radix) {
            Some(d) => d,
            None => 0,
        }),
        digits_value(cs, from, to + 1, radix) >= digits_value(cs, from, to, radix),
{
    let before = digits_value(cs, from, to, radix);
    assert(before * radix >= before) by (nonlinear_arith)
        requires
            radix >= 1,
            before >= 0,
    ;
}

/// An integer: the longest run of digits of the radix that starts at the
/// cursor, with no trivia before it. It fails where the number does not fit in
/// 64 bits.
#[verifier::opaque]
pub open spec fn integer(cs: Seq<char>, c: Cursor, radix: nat) -> Parsed<Spanned<u64>> {
    let q = run_end(cs, c.at, Class::Digit(radix));
    if q <= c.at {
        Parsed::Miss
    } else if digits_value(cs, c.at, q, radix) > u64::MAX {
        Parsed::Fail { error: ErrorType::IntOverflow, start: c.at, end: q }
    } else {
        Parsed::Hit {
            value: Spanned { data: digits_value(cs, c.at, q, radix) as u64, start: c.at, end: q },
            next: c.to(q),
        }
    }
}

/// A real number with no fraction and no exponent.
pub open spec fn whole(integer: u64) -> RealLiteral {
    RealLiteral { integer, fraction: 0, fraction_digits: 0, exponent_negative: false, exponent: 0 }
}

/// The number's value as a real.
pub open spec fn as_real(n: Number) -> RealLiteral {
    match n {
        Number::Int(i) => whole(i),
        Number::Real(r) => r,
    }
}

/// A decimal number: an integer, then, if a point follows, the point and the
/// digits behind it, if there are any. With a point the number is real.
#[verifier::opaque]
pub open spec fn decimal(cs: Seq<char>, c: Cursor) -> Parsed<Spanned<Number>> {
    match integer(cs, c, 10) {
        Parsed::Hit { value, next } => {
            if next.at < cs.len() && cs[next.at as int] == '.' {
                match integer(cs, next.to(next.at + 1), 10) {
                    Parsed::Hit { value: fraction, next: behind } => Parsed::Hit {
                        value: Spanned {
                            data: Number::Real(
                                RealLiteral {
                                    integer: value.data,
                                    fraction: fraction.data,
                                    fraction_digits: (fraction.end - fraction.start) as usize,
                                    exponent_negative: false,
                                    exponent: 0,
                                },
                            ),
                            start: value.start,
                            end: fraction.end,
                        },
                        next: behind,
                    },
                    Parsed::Miss => Parsed::Hit {
                        value: Spanned {
                            data: Number::Real(whole(value.data)),
                            start: value.start,
                            end: next.at + 1,
                        },
                        next: next.to(next.at + 1),
                    },
                    Parsed::Fail { error, start, end } => Parsed::Fail { error, start, end },
                }
            } else {
                Parsed::Hit {
                    value: Spanned { data: Number::Int(value.data), start: value.start, end: value.end },
                    next,
                }
            }
        },
        Parsed::Miss => Parsed::Miss,
        Parsed::Fail { error, start, end } => Parsed::Fail { error, start, end },
    }
}

/// Index behind a sign, if one stands at `at`.
pub open spec fn sign_end(cs: Seq<char>, at: nat) -> nat {
    if at < cs.len() && (cs[at as int] == '+' || cs[at as int] == '-') {
        at + 1
    } else {
        at
    }
}

/// A decimal number, then, if `e` or `E` follows, an exponent: an optional
/// sign and an integer, which must be there. With an exponent the number is
/// real.
#[verifier::opaque]
pub open spec fn scientific(cs: Seq<char>, c: Cursor) -> Parsed<Spanned<Number>> {
    match decimal(cs, c) {
        Parsed::Hit { value, next } => {
            if next.at < cs.len() && (cs[next.at as int] == 'e' || cs[next.at as int] == 'E') {
                let digits = sign_end(cs, next.at + 1);
                let negative = digits > next.at + 1 && cs[(next.at + 1) as int] == '-';
                match integer(cs, next.to(digits), 10) {
                    Parsed::Hit { value: exponent, next: behind } => Parsed::Hit {
                        value: Spanned {
                            data: Number::Real(
                                RealLiteral {
                                    integer: as_real(value.data).integer,
                                    fraction: as_real(value.data).fraction,
                                    fraction_digits: as_real(value.data).fraction_digits,
                                    exponent_negative: negative,
                                    exponent: exponent.data,
                                },
                            ),
                            start: value.start,
                            end: exponent.end,
                        },
                        next: behind,
                    },
                    Parsed::Miss => Parsed::Fail {
                        error: ErrorType::ExpectedInteger,
                        start: value.start,
                        end: digits,
                    },
                    Parsed::Fail { error, start, end } => Parsed::Fail { error, start, end },
                }
            } else {
                Parsed::Hit { value, next }
            }
        },
        other => other,
    }
}

/// The radix that a prefix at `p` selects: a letter or a zero, then `b`, `o` or
/// `x` in either case, then a digit of the radix so selected.
pub open spec fn radix_at(cs: Seq<char>, p: nat) -> Option<nat> {
    if p + 2 < cs.len() && (alphabetic(cs[p as int]) || cs[p as int] == '0') {
        match radix_of(cs[(p + 1) as int]) {
            Some(radix) => if digit_of(cs[(p + 2) as int], radix) is Some {
                Some(radix)
            } else {
                None
            },
            None => None,
        }
    } else {
        None
    }
}

/// A radix prefix at the cursor, with no trivia before it.
#[verifier::opaque]
pub open spec fn radix(cs: Seq<char>, c: Cursor) -> Parsed<Spanned<u32>> {
    match radix_at(cs, c.at) {
        Some(radix) => Parsed::Hit {
            value: Spanned { data: radix as u32, start: c.at, end: c.at + 2 },
            next: c.to(c.at + 2),
        },
        None => Parsed::Miss,
    }
}

/// A number, behind any trivia: with a radix prefix, an integer in base 2, 8 or
/// 16; without one, a decimal number with an optional exponent.
#[verifier::opaque]
pub open spec fn number(cs: Seq<char>, c: Cursor) -> Parsed<Spanned<Number>> {
    let p = trivia_end(cs, c.at);
    match radix(cs, c.to(p)) {
        Parsed::Hit { value: prefix, next: digits } => match integer(
            cs,
            digits,
            prefix.data as nat,
        ) {
            Parsed::Hit { value, next } => Parsed::Hit {
                value: Spanned { data: Number::Int(value.data), start: prefix.start, end: value.end },
                next,
            },
            Parsed::Miss => Parsed::Fail {
                error: ErrorType::ExpectedInteger,
                start: prefix.start,
                end: prefix.end,
            },
            Parsed::Fail { error, start, end } => Parsed::Fail { error, start, end },
        },
        _ => scientific(cs, c.to(p)),
    }
}

// ---------------------------------------------------------------------------
// Strings and characters

/// What an escape sequence gives: a character and the index behind the
/// sequence, or an error and the index behind what was read of it.
pub enum Escape {
    Char { c: char, next: nat },
    Bad { error: ErrorType, end: nat },
}

/// The number that the hexadecimal digits from `from` up to `to` write.
pub open spec fn hex_value(cs: Seq<char>, from: nat, to: nat) -> nat {
    digits_value(cs, from, to, 16)
}

/// Index behind the hexadecimal digits that start at `from`, at most `most` of
/// them.
pub open spec fn hex_end(cs: Seq<char>, from: nat, most: nat) -> nat {
    let all = run_end(cs, from, Class::Digit(16));
    if all > from + most {
        from + most
    } else {
        all
    }
}

/// The character with a code, or the error for a code that no character has.
pub open spec fn coded(code: nat, end: nat) -> Escape {
    if code <= u32::MAX && is_scalar(code as u32) {
        Escape::Char { c: code as u32 as char, next: end }
    } else {
        Escape::Bad { error: ErrorType::InvalidCharCode, end }
    }
}

/// The escape sequence whose backslash stands just before `at`: a letter for
/// one character; `x` and two hexadecimal digits; or `u`, a brace, one to four
/// hexadecimal digits and the closing brace.
#[verifier::opaque]
pub open spec fn escape(cs: Seq<char>, at: nat) -> Escape {
    if at >= cs.len() {
        Escape::Bad { error: ErrorType::IncompleteEscape, end: at }
    } else {
        let c = cs[at as int];
        if c == 'n' {
            Escape::Char { c: '\n', next: at + 1 }
        } else if c == 't' {
            Escape::Char { c: '\t', next: at + 1 }
        } else if c == 'r' {
            Escape::Char { c: '\r', next: at + 1 }
        } else if c == '0' {
            Escape::Char { c: '\0', next: at + 1 }
        } else if c == '\\' || c == '\'' || c == '"' {
            Escape::Char { c, next: at + 1 }
        } else if c == 'x' {
            let end = hex_end(cs, at + 1, 2);
            if end < at + 3 {
                Escape::Bad { error: ErrorType::IncompleteCharCode, end }
            } else {
                coded(hex_value(cs, at + 1, end), end)
            }
        } else if c == 'u' {
            if at + 1 < cs.len() && cs[(at + 1) as int] == '{' {
                let end = hex_end(cs, at + 2, 4);
                if !(end < cs.len() && cs[end as int] == '}') {
                    Escape::Bad { error: ErrorType::ExpectedRCurly, end }
                } else if end <= at + 2 {
                    Escape::Bad { error: ErrorType::InvalidCharCode, end: end + 1 }
                } else {
                    coded(hex_value(cs, at + 2, end), end + 1)
                }
            } else {
                Escape::Bad { error: ErrorType::ExpectedLCurly, end: at + 1 }
            }
        } else {
            Escape::Bad { error: ErrorType::InvalidEscape, end: at + 1 }
        }
    }
}

/// An escape sequence ends behind its first character and inside the text.
pub proof fn lemma_escape(cs: Seq<char>, at: nat)
    requires
        at <= cs.len(),
    ensures
        match escape(cs, at) {
            Escape::Char { c, next } => at < next <= cs.len(),
            Escape::Bad { error, end } => at <= end <= cs.len(),
        },
{
    reveal(escape);
    if at < cs.len() {
        lemma_run_end(cs, at + 1, Class::Digit(16));
        if at + 1 < cs.len() {
            lemma_run_end(cs, at + 2, Class::Digit(16));
        }
    }
}

/// How a literal of text is delimited.
pub struct Delimiter {
    /// The character that closes it.
    pub quote: char,
    /// For a raw string, the number of closing parentheses that must follow
    /// the quote.
    pub depth: Option<nat>,
    /// The error for a literal that the text ends in.
    pub incomplete: ErrorType,
}

impl Delimiter {
    /// Whether escape sequences are read: they are not in a raw string.
    pub open spec fn escapes(self) -> bool {
        self.depth is None
    }
}

/// Index behind the closing delimiter, if it stands at `at`: the quote, and
/// for a raw string as many closing parentheses as the literal opened with.
pub open spec fn close_end(cs: Seq<char>, at: nat, by: Delimiter) -> Option<nat> {
    if at < cs.len() && cs[at as int] == by.quote {
        match by.depth {
            Some(depth) => if run_end(cs, at + 1, Class::Exactly(')')) >= at + 1 + depth {
                Some(at + 1 + depth)
            } else {
                None
            },
            None => Some(at + 1),
        }
    } else {
        None
    }
}

/// The rest of a literal of text that started at `start`, read from `at` on,
/// with `so_far` read already: up to the closing delimiter, each character
/// standing for itself but for escape sequences.
pub open spec fn text_body(
    cs: Seq<char>,
    c: Cursor,
    start: nat,
    by: Delimiter,
    so_far: Seq<char>,
) -> Parsed<Spanned<Seq<char>>>
    decreases cs.len() - c.at,
{
    match close_end(cs, c.at, by) {
        Some(end) => Parsed::Hit { value: Spanned { data: so_far, start, end }, next: c.to(end) },
        None => {
            if c.at >= cs.len() {
                Parsed::Fail { error: by.incomplete, start, end: c.at }
            } else if cs[c.at as int] == '\\' && by.escapes() {
                match escape(cs, c.at + 1) {
                    Escape::Char { c: decoded, next } => {
                        proof {
                            lemma_escape(cs, c.at + 1);
                        }
                        text_body(cs, c.to(next), start, by, so_far.push(decoded))
                    },
                    Escape::Bad { error, end } => Parsed::Fail { error, start, end },
                }
            } else {
                text_body(cs, c.to(c.at + 1), start, by, so_far.push(cs[c.at as int]))
            }
        },
    }
}

/// A raw string of depth `n` closes at a quote exactly where `n` closing
/// parentheses follow the quote; one more or one less is no match for the
/// count, and more are left unread.
pub proof fn law_raw_closing(cs: Seq<char>, at: nat, by: Delimiter, n: nat)
    requires
        by.depth == Some(n),
    ensures
        close_end(cs, at, by) is Some <==> {
            &&& at + n < cs.len()
            &&& cs[at as int] == by.quote
            &&& forall|i: int| at < i <= at + n ==> cs[i] == ')'
        },
        close_end(cs, at, by) matches Some(end) ==> end == at + 1 + n,
{
    if at < cs.len() {
        let class = Class::Exactly(')');
        let run = run_end(cs, at + 1, class);
        lemma_run_end(cs, at + 1, class);
        if at + n < cs.len() && (forall|i: int| at < i <= at + n ==> cs[i] == ')') {
            assert forall|i: int| at + 1 <= i < at + 1 + n implies in_class(class, #[trigger] cs[i]) by {
                assert(cs[i] == ')');
            }
            lemma_run_from(cs, at + 1, at + 1 + n, class);
        }
    }
}

/// The index of the first closing delimiter at or behind `at`, or the end of
/// the text where there is none.
pub open spec fn first_close(cs: Seq<char>, at: nat, by: Delimiter) -> nat
    decreases cs.len() - at,
{
    if at >= cs.len() {
        cs.len()
    } else if close_end(cs, at, by) is Some {
        at
    } else {
        first_close(cs, at + 1, by)
    }
}

/// A literal that reads no escape sequences holds the characters up to its
/// first closing delimiter as they stand. Where the text ends before any
/// closing delimiter, with too few closing parentheses too, the literal is
/// incomplete.
pub proof fn law_raw_text(cs: Seq<char>, c: Cursor, start: nat, by: Delimiter, so_far: Seq<char>)
    requires
        !by.escapes(),
        c.at <= cs.len(),
    ensures
        text_body(cs, c, start, by, so_far) == (if first_close(cs, c.at, by) < cs.len() {
            Parsed::Hit {
                value: Spanned {
                    data: so_far + cs.subrange(c.at as int, first_close(cs, c.at, by) as int),
                    start,
                    end: close_end(cs, first_close(cs, c.at, by), by)->0,
                },
                next: c.to(close_end(cs, first_close(cs, c.at, by), by)->0),
            }
        } else {
            Parsed::Fail { error: by.incomplete, start, end: cs.len() }
        }),
        c.at <= first_close(cs, c.at, by) <= cs.len(),
    decreases cs.len() - c.at,
{
    if c.at < cs.len() && close_end(cs, c.at, by) is None {
        law_raw_text(cs, c.to(c.at + 1), start, by, so_far.push(cs[c.at as int]));
        let q = first_close(cs, c.at, by);
        assert(so_far.push(cs[c.at as int]) + cs.subrange((c.at + 1) as int, q as int) =~= so_far
            + cs.subrange(c.at as int, q as int));
    }
}

/// A string, behind any trivia: in double quotes, with escape sequences; or
/// raw, that is `r`, any number of opening parentheses and a double quote, up
/// to a double quote that as many closing parentheses follow.
#[verifier::opaque]
pub open spec fn string(cs: Seq<char>, c: Cursor) -> Parsed<Spanned<Seq<char>>> {
    let p = trivia_end(cs, c.at);
    if p < cs.len() && cs[p as int] == 'r' {
        let quote = run_end(cs, p + 1, Class::Exactly('('));
        if quote < cs.len() && cs[quote as int] == '"' {
            text_body(
                cs,
                c.to(quote + 1),
                p,
                Delimiter {
                    quote: '"',
                    depth: Some((quote - (p + 1)) as nat),
                    incomplete: ErrorType::IncompleteString,
                },
                Seq::empty(),
            )
        } else {
            Parsed::Miss
        }
    } else if p < cs.len() && cs[p as int] == '"' {
        text_body(
            cs,
            c.to(p + 1),
            p,
            Delimiter { quote: '"', depth: None, incomplete: ErrorType::IncompleteString },
            Seq::empty(),
        )
    } else {
        Parsed::Miss
    }
}

/// A character, behind any trivia: in single quotes, exactly one character or
/// escape sequence.
#[verifier::opaque]
pub open spec fn character(cs: Seq<char>, c: Cursor) -> Parsed<Spanned<char>> {
    let p = trivia_end(cs, c.at);
    if p < cs.len() && cs[p as int] == '\'' {
        match text_body(
            cs,
            c.to(p + 1),
            p,
            Delimiter { quote: '\'', depth: None, incomplete: ErrorType::IncompleteChar },
            Seq::empty(),
        ) {
            Parsed::Hit { value, next } => {
                if value.data.len() == 0 {
                    Parsed::Fail { error: ErrorType::EmptyChar, start: value.start, end: value.end }
                } else if value.data.len() > 1 {
                    Parsed::Fail {
                        error: ErrorType::TooManyChars,
                        start: value.start,
                        end: value.end,
                    }
                } else {
                    Parsed::Hit {
                        value: Spanned { data: value.data[0], start: value.start, end: value.end },
                        next,
                    }
                }
            },
            Parsed::Miss => Parsed::Miss,
            Parsed::Fail { error, start, end } => Parsed::Fail { error, start, end },
        }
    } else {
        Parsed::Miss
    }
}

// ---------------------------------------------------------------------------
// What a token takes

/// The piece that was read starts at or behind the cursor, is not empty, lies
/// in the text and ends where the next cursor stands; the names that were
/// interned keep their places.
pub open spec fn advances<T>(read: Parsed<Spanned<T>>, cs: Seq<char>, c: Cursor) -> bool {
    read matches Parsed::Hit { value, next } ==> {
        &&& c.at <= value.start < value.end <= cs.len()
        &&& next.at == value.end
        &&& c.names.is_prefix_of(next.names)
    }
}

/// Skipping never moves back, stays inside the text, and changes nothing
/// when done again.
pub proof fn lemma_skip(cs: Seq<char>, at: nat)
    ensures
        at <= trivia_end(cs, at),
        at <= cs.len() ==> trivia_end(cs, at) <= cs.len(),
        trivia_end(cs, trivia_end(cs, at)) == trivia_end(cs, at),
{
    if at <= cs.len() {
        lemma_trivia_end(cs, at);
    }
}

/// A word that was read starts behind the trivia, is not empty and leaves the
/// names that were interned in their places; a keyword interns nothing; and
/// to skip the trivia first changes nothing.
pub proof fn lemma_word_advances(cs: Seq<char>, c: Cursor)
    ensures
        advances(ident_or_keyword(cs, c), cs, c),
        advances(ident(cs, c), cs, c),
        advances(keyword(cs, c), cs, c),
        forall|k: Keyword| advances(#[trigger] keyword_eq(cs, c, k), cs, c),
        ident(cs, c) matches Parsed::Hit { value, next } ==> value.start == trivia_end(cs, c.at),
        keyword(cs, c) matches Parsed::Hit { value, next } ==> next.names == c.names,
        forall|k: Keyword| #[trigger]
            keyword_eq(cs, c, k) matches Parsed::Hit { value, next } ==> next.names == c.names,
        ident_or_keyword(cs, c.to(trivia_end(cs, c.at))) == ident_or_keyword(cs, c),
        ident(cs, c.to(trivia_end(cs, c.at))) == ident(cs, c),
        keyword(cs, c.to(trivia_end(cs, c.at))) == keyword(cs, c),
{
    reveal(ident_or_keyword);
    reveal(ident);
    reveal(keyword);
    reveal(keyword_eq);
    lemma_skip(cs, c.at);
    let p = trivia_end(cs, c.at);
    if p < cs.len() {
        lemma_run_end(cs, p + 1, Class::WordPart);
        let text = cs.subrange(p as int, run_end(cs, p + 1, Class::WordPart) as int);
    }
}

/// A symbol that was read is not empty and interns nothing; to skip the
/// trivia first changes nothing.
pub proof fn lemma_symbol_advances(cs: Seq<char>, c: Cursor)
    ensures
        advances(symbol(cs, c), cs, c),
        forall|s: Symbol| advances(#[trigger] symbol_eq(cs, c, s), cs, c),
        symbol(cs, c) matches Parsed::Hit { value, next } ==> next.names == c.names,
        symbol(cs, c.to(trivia_end(cs, c.at))) == symbol(cs, c),
{
    reveal(symbol);
    reveal(symbol_eq);
    lemma_skip(cs, c.at);
    let p = trivia_end(cs, c.at);
    assert(longest_symbol(cs, p, 5) <= 5 && (longest_symbol(cs, p, 5) > 0 ==> spells_symbol(
        cs,
        p,
        longest_symbol(cs, p, 5),
    ))) by {
        reveal_with_fuel(longest_symbol, 6);
    }
}

} // verus!
