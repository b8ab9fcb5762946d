//! The grammar of expressions, as functions from the characters of the stream
//! and a cursor to what is read there. Spans count characters of the stream.
//!
//! The functions call each other in a circle. Each is measured by the number
//! of characters that are left and, among functions that read from the same
//! cursor, by a rank that falls from caller to callee.

use crate::parser::error::ErrorType;
use crate::parser::grammar::{
    character, ident, keyword, keyword_eq, lemma_symbol_advances, lemma_word_advances, number,
    string, symbol, symbol_eq, trivia_end, Cursor, Parsed,
};
use crate::parser::parse_node::{Keyword, Number, Symbol, SymbolKeyword};
use crate::parser::view::{DictionaryKeyView, ExpressionView, Spanned, SuffixTypeView};
use vstd::prelude::*;

verus! {

/// Number of characters from the cursor to the end of the text.
pub open spec fn left(cs: Seq<char>, c: Cursor) -> nat {
    if c.at <= cs.len() {
        (cs.len() - c.at) as nat
    } else {
        0
    }
}

/// The loosest level of binary operators. Level 0 binds tightest.
pub open spec fn top_level() -> nat {
    10
}

/// Whether a symbol is a binary operator of a level: power at level 0, then
/// multiplication, addition, shifts, comparison, equality, and the bitwise
/// and, exclusive or and or.
pub open spec fn binds(level: nat, op: Symbol) -> bool {
    if level == 0 {
        op == Symbol::Pow
    } else if level == 1 {
        op == Symbol::Mul || op == Symbol::Div || op == Symbol::Mod
    } else if level == 2 {
        op == Symbol::Add || op == Symbol::Sub
    } else if level == 3 {
        op == Symbol::LeftShift || op == Symbol::RightShift
    } else if level == 4 {
        op == Symbol::Less || op == Symbol::Greater || op == Symbol::LessEq || op
            == Symbol::GreaterEq
    } else if level == 5 {
        op == Symbol::Eq || op == Symbol::NotEq
    } else if level == 6 {
        op == Symbol::And
    } else if level == 7 {
        op == Symbol::Xor
    } else if level == 8 {
        op == Symbol::Or
    } else {
        false
    }
}

/// The word that is the binary operator of a level, if the level has one:
/// `and` at level 9, `or` at level 10.
pub open spec fn binding_word(level: nat) -> Option<Keyword> {
    if level == 9 {
        Some(Keyword::And)
    } else if level == 10 {
        Some(Keyword::Or)
    } else {
        None
    }
}

/// A binary operator of a level.
pub open spec fn operator(cs: Seq<char>, c: Cursor, level: nat) -> Parsed<Spanned<SymbolKeyword>> {
    match binding_word(level) {
        Some(word) => match keyword_eq(cs, c, word) {
            Parsed::Hit { value, next } => Parsed::Hit {
                value: Spanned {
                    data: SymbolKeyword::Keyword(value.data),
                    start: value.start,
                    end: value.end,
                },
                next,
            },
            _ => Parsed::Miss,
        },
        None => match symbol(cs, c) {
            Parsed::Hit { value, next } => if binds(level, value.data) {
                Parsed::Hit {
                    value: Spanned {
                        data: SymbolKeyword::Symbol(value.data),
                        start: value.start,
                        end: value.end,
                    },
                    next,
                }
            } else {
                Parsed::Miss
            },
            _ => Parsed::Miss,
        },
    }
}

/// Whether a symbol is a prefix operator.
pub open spec fn is_prefix(op: Symbol) -> bool {
    op == Symbol::Not || op == Symbol::Add || op == Symbol::Sub
}

/// The expression that a number is.
pub open spec fn number_expression(n: Number) -> ExpressionView {
    match n {
        Number::Int(i) => ExpressionView::Int(i),
        Number::Real(r) => ExpressionView::Real(r),
    }
}

/// The end of the last of the pieces, or `otherwise` where there is none.
pub open spec fn last_end<T>(pieces: Seq<Spanned<T>>, otherwise: nat) -> nat {
    if pieces.len() > 0 {
        pieces.last().end
    } else {
        otherwise
    }
}

/// An expression: operands joined by binary operators, the loosest of which
/// are applied last.
pub open spec fn expression(cs: Seq<char>, c: Cursor) -> Parsed<Spanned<ExpressionView>>
    decreases left(cs, c), 131nat,
{
    binary(cs, c, top_level())
}

/// What the operators of a level join: at level 0 a primary expression with
/// its suffixes, at level 1 an operand with its prefix operators, and above
/// that an expression of the level below.
pub open spec fn operand(cs: Seq<char>, c: Cursor, level: nat) -> Parsed<Spanned<ExpressionView>>
    decreases left(cs, c), 10 * level + 28,
{
    if level == 0 {
        suffix(cs, c)
    } else if level == 1 {
        unary(cs, c)
    } else if level <= top_level() {
        binary(cs, c, (level - 1) as nat)
    } else {
        Parsed::Miss
    }
}

/// Operands of a level joined by its operators, grouped from the left.
pub open spec fn binary(cs: Seq<char>, c: Cursor, level: nat) -> Parsed<Spanned<ExpressionView>>
    decreases left(cs, c), 10 * level + 30,
{
    if level > top_level() {
        Parsed::Miss
    } else {
        match operand(cs, c, level) {
            Parsed::Hit { value, next } => binary_rest(cs, next.after(c), level, value),
            other => other,
        }
    }
}

/// What follows the operand `lhs` at a level: an operator of the level and
/// another operand, any number of times. An operator without an operand
/// behind it is an error.
pub open spec fn binary_rest(
    cs: Seq<char>,
    c: Cursor,
    level: nat,
    lhs: Spanned<ExpressionView>,
) -> Parsed<Spanned<ExpressionView>>
    decreases left(cs, c), 10 * level + 25,
{
    match operator(cs, c, level) {
        Parsed::Hit { value: op, next } => {
            proof {
                lemma_symbol_advances(cs, c);
                lemma_word_advances(cs, c);
            }
            match operand(cs, next, level) {
                Parsed::Hit { value: rhs, next: behind } => binary_rest(
                    cs,
                    behind.after(next),
                    level,
                    Spanned {
                        data: ExpressionView::Binary {
                            left: Box::new(lhs),
                            right: Box::new(rhs),
                            operator: op.data,
                        },
                        start: lhs.start,
                        end: rhs.end,
                    },
                ),
                Parsed::Miss => Parsed::Fail {
                    error: ErrorType::ExpectedExpr,
                    start: lhs.start,
                    end: op.end,
                },
                Parsed::Fail { error, start, end } => Parsed::Fail { error, start, end },
            }
        },
        _ => Parsed::Hit { value: lhs, next: c },
    }
}

/// An operand with its prefix operators, of which the one nearest to the
/// operand is applied first.
pub open spec fn unary(cs: Seq<char>, c: Cursor) -> Parsed<Spanned<ExpressionView>>
    decreases left(cs, c), 35nat,
{
    match symbol(cs, c) {
        Parsed::Hit { value: op, next } => {
            proof {
                lemma_symbol_advances(cs, c);
            }
            if is_prefix(op.data) {
                match unary(cs, next) {
                    Parsed::Hit { value: inner, next: behind } => Parsed::Hit {
                        value: Spanned {
                            data: ExpressionView::Unary {
                                operand: Box::new(inner),
                                operator: op.data,
                            },
                            start: op.start,
                            end: inner.end,
                        },
                        next: behind,
                    },
                    other => other,
                }
            } else {
                binary(cs, c, 0)
            }
        },
        _ => binary(cs, c, 0),
    }
}

/// A primary expression with the suffixes that follow it.
pub open spec fn suffix(cs: Seq<char>, c: Cursor) -> Parsed<Spanned<ExpressionView>>
    decreases left(cs, c), 5nat,
{
    match primary(cs, c) {
        Parsed::Hit { value, next } => suffix_rest(cs, next.after(c), value),
        other => other,
    }
}

/// The suffixes that follow `base`: a point and a name, an index in square
/// brackets, or arguments in parentheses, any number of times. Each suffix
/// takes all that stands before it as its base.
pub open spec fn suffix_rest(
    cs: Seq<char>,
    c: Cursor,
    base: Spanned<ExpressionView>,
) -> Parsed<Spanned<ExpressionView>>
    decreases left(cs, c), 4nat,
{
    match symbol(cs, c) {
        Parsed::Hit { value: opener, next } => {
            proof {
                lemma_symbol_advances(cs, c);
            }
            if opener.data == Symbol::Dot {
                match ident(cs, next) {
                    Parsed::Hit { value: name, next: behind } => {
                        proof {
                            lemma_word_advances(cs, next);
                        }
                        suffix_rest(
                            cs,
                            behind,
                            Spanned {
                                data: ExpressionView::Suffix {
                                    node: Box::new(base),
                                    suffix: SuffixTypeView::Property(name.data),
                                },
                                start: base.start,
                                end: name.end,
                            },
                        )
                    },
                    _ => Parsed::Fail {
                        error: ErrorType::ExpectedIdent,
                        start: opener.start,
                        end: opener.end,
                    },
                }
            } else if opener.data == Symbol::LSquareBracket {
                match expression(cs, next) {
                    Parsed::Hit { value: index, next: behind } => match symbol_eq(
                        cs,
                        behind.after(next),
                        Symbol::RSquareBracket,
                    ) {
                        Parsed::Hit { value: closing, next: after } => {
                            proof {
                                lemma_symbol_advances(cs, behind.after(next));
                            }
                            suffix_rest(
                                cs,
                                after,
                                Spanned {
                                    data: ExpressionView::Suffix {
                                        node: Box::new(base),
                                        suffix: SuffixTypeView::Index(Box::new(index)),
                                    },
                                    start: base.start,
                                    end: closing.end,
                                },
                            )
                        },
                        _ => Parsed::Fail {
                            error: ErrorType::ExpectedRSquare,
                            start: opener.start,
                            end: index.end,
                        },
                    },
                    Parsed::Miss => Parsed::Fail {
                        error: ErrorType::ExpectedExpr,
                        start: opener.start,
                        end: opener.end,
                    },
                    Parsed::Fail { error, start, end } => Parsed::Fail { error, start, end },
                }
            } else if opener.data == Symbol::LParenthesis {
                match arguments(cs, next, Seq::empty()) {
                    Parsed::Hit { value: args, next: behind } => match symbol_eq(
                        cs,
                        behind.after(next),
                        Symbol::RParenthesis,
                    ) {
                        Parsed::Hit { value: closing, next: after } => {
                            proof {
                                lemma_symbol_advances(cs, behind.after(next));
                            }
                            suffix_rest(
                                cs,
                                after,
                                Spanned {
                                    data: ExpressionView::Suffix {
                                        node: Box::new(base),
                                        suffix: SuffixTypeView::Call(args),
                                    },
                                    start: base.start,
                                    end: closing.end,
                                },
                            )
                        },
                        _ => Parsed::Fail {
                            error: ErrorType::ExpectedRParen,
                            start: opener.start,
                            end: last_end(args, opener.end),
                        },
                    },
                    Parsed::Miss => Parsed::Miss,
                    Parsed::Fail { error, start, end } => Parsed::Fail { error, start, end },
                }
            } else {
                Parsed::Hit { value: base, next: c }
            }
        },
        _ => Parsed::Hit { value: base, next: c },
    }
}

/// Expressions parted by commas, behind those in `so_far`. A comma may
/// follow the last of them. Where no expression follows, the trivia that
/// stands there is skipped.
pub open spec fn arguments(
    cs: Seq<char>,
    c: Cursor,
    so_far: Seq<Spanned<ExpressionView>>,
) -> Parsed<Seq<Spanned<ExpressionView>>>
    decreases left(cs, c), 132nat,
{
    match expression(cs, c) {
        Parsed::Hit { value, next } => match symbol_eq(cs, next.after(c), Symbol::Comma) {
            Parsed::Hit { value: comma, next: behind } => {
                proof {
                    lemma_symbol_advances(cs, next.after(c));
                }
                arguments(cs, behind, so_far.push(value))
            },
            _ => Parsed::Hit { value: so_far.push(value), next: next.after(c) },
        },
        Parsed::Miss => Parsed::Hit { value: so_far, next: c.to(trivia_end(cs, c.at)) },
        Parsed::Fail { error, start, end } => Parsed::Fail { error, start, end },
    }
}

/// A primary expression: a number, a string, a character,
/// `true`, `false` or `none`, a variable, an expression in parentheses, an
/// array or a dictionary. The name `_` cannot be read as a variable.
pub open spec fn primary(cs: Seq<char>, c: Cursor) -> Parsed<Spanned<ExpressionView>>
    decreases left(cs, c), 3nat,
{
    match number(cs, c) {
        Parsed::Hit { value, next } => Parsed::Hit {
            value: Spanned {
                data: number_expression(value.data),
                start: value.start,
                end: value.end,
            },
            next,
        },
        Parsed::Fail { error, start, end } => Parsed::Fail { error, start, end },
        Parsed::Miss => match string(cs, c) {
            Parsed::Hit { value, next } => Parsed::Hit {
                value: Spanned {
                    data: ExpressionView::String(value.data),
                    start: value.start,
                    end: value.end,
                },
                next,
            },
            Parsed::Fail { error, start, end } => Parsed::Fail { error, start, end },
            Parsed::Miss => match character(cs, c) {
                Parsed::Hit { value, next } => Parsed::Hit {
                    value: Spanned {
                        data: ExpressionView::Char(value.data),
                        start: value.start,
                        end: value.end,
                    },
                    next,
                },
                Parsed::Fail { error, start, end } => Parsed::Fail { error, start, end },
                Parsed::Miss => named(cs, c),
            },
        },
    }
}

/// The literal that a keyword is, if it is one.
pub open spec fn literal(k: Keyword) -> Option<ExpressionView> {
    match k {
        Keyword::True => Some(ExpressionView::Bool(true)),
        Keyword::False => Some(ExpressionView::Bool(false)),
        Keyword::Nothing => Some(ExpressionView::Nothing),
        _ => None,
    }
}

/// A word that is a literal: `true`, `false` or `none`.
pub open spec fn word_literal(cs: Seq<char>, c: Cursor) -> Parsed<Spanned<ExpressionView>> {
    match keyword(cs, c) {
        Parsed::Hit { value, next } => match literal(value.data) {
            Some(data) => Parsed::Hit {
                value: Spanned { data, start: value.start, end: value.end },
                next,
            },
            None => Parsed::Miss,
        },
        _ => Parsed::Miss,
    }
}

/// A variable: an identifier other than `_`, which cannot be read.
pub open spec fn variable(cs: Seq<char>, c: Cursor) -> Parsed<Spanned<ExpressionView>> {
    match ident(cs, c) {
        Parsed::Hit { value, next } => {
            if cs.subrange(value.start as int, value.end as int) == "_"@ {
                Parsed::Fail {
                    error: ErrorType::UnderscoreVariable,
                    start: value.start,
                    end: value.end,
                }
            } else {
                Parsed::Hit {
                    value: Spanned {
                        data: ExpressionView::Variable(value.data),
                        start: value.start,
                        end: value.end,
                    },
                    next,
                }
            }
        },
        _ => Parsed::Miss,
    }
}

/// A primary expression that is no number, string or character: a literal
/// word, a variable, or a form in brackets.
pub open spec fn named(cs: Seq<char>, c: Cursor) -> Parsed<Spanned<ExpressionView>>
    decreases left(cs, c), 2nat,
{
    match word_literal(cs, c) {
        Parsed::Miss => match variable(cs, c) {
            Parsed::Miss => bracketed(cs, c),
            other => other,
        },
        other => other,
    }
}

/// An expression in parentheses.
pub open spec fn grouping(cs: Seq<char>, c: Cursor) -> Parsed<Spanned<ExpressionView>>
    decreases left(cs, c), 0nat,
{
    match symbol_eq(cs, c, Symbol::LParenthesis) {
        Parsed::Hit { value: opener, next } => {
            proof {
                lemma_symbol_advances(cs, c);
            }
            match expression(cs, next) {
                Parsed::Hit { value: inner, next: behind } => match symbol_eq(
                    cs,
                    behind.after(next),
                    Symbol::RParenthesis,
                ) {
                    Parsed::Hit { value: closing, next: after } => Parsed::Hit {
                        value: Spanned {
                            data: ExpressionView::Grouping(Box::new(inner)),
                            start: opener.start,
                            end: closing.end,
                        },
                        next: after,
                    },
                    _ => Parsed::Fail {
                        error: ErrorType::ExpectedRParen,
                        start: opener.start,
                        end: inner.end,
                    },
                },
                Parsed::Miss => Parsed::Fail {
                    error: ErrorType::ExpectedExpr,
                    start: opener.start,
                    end: opener.end,
                },
                Parsed::Fail { error, start, end } => Parsed::Fail { error, start, end },
            }
        },
        _ => Parsed::Miss,
    }
}

/// An array: expressions in square brackets, parted by commas.
pub open spec fn array(cs: Seq<char>, c: Cursor) -> Parsed<Spanned<ExpressionView>>
    decreases left(cs, c), 0nat,
{
    match symbol_eq(cs, c, Symbol::LSquareBracket) {
        Parsed::Hit { value: opener, next } => {
            proof {
                lemma_symbol_advances(cs, c);
            }
            match arguments(cs, next, Seq::empty()) {
                Parsed::Hit { value: items, next: behind } => match symbol_eq(
                    cs,
                    behind.after(next),
                    Symbol::RSquareBracket,
                ) {
                    Parsed::Hit { value: closing, next: after } => Parsed::Hit {
                        value: Spanned {
                            data: ExpressionView::Array(items),
                            start: opener.start,
                            end: closing.end,
                        },
                        next: after,
                    },
                    _ => Parsed::Fail {
                        error: ErrorType::ExpectedRSquare,
                        start: opener.start,
                        end: last_end(items, opener.end),
                    },
                },
                Parsed::Miss => Parsed::Miss,
                Parsed::Fail { error, start, end } => Parsed::Fail { error, start, end },
            }
        },
        _ => Parsed::Miss,
    }
}

/// A dictionary: entries in curly brackets, parted by commas.
pub open spec fn dictionary(cs: Seq<char>, c: Cursor) -> Parsed<Spanned<ExpressionView>>
    decreases left(cs, c), 0nat,
{
    match symbol_eq(cs, c, Symbol::LCurlyBracket) {
        Parsed::Hit { value: opener, next } => {
            proof {
                lemma_symbol_advances(cs, c);
            }
            match entries(cs, next, Seq::empty()) {
                Parsed::Hit { value: pairs, next: behind } => match symbol_eq(
                    cs,
                    behind.after(next),
                    Symbol::RCurlyBracket,
                ) {
                    Parsed::Hit { value: closing, next: after } => Parsed::Hit {
                        value: Spanned {
                            data: ExpressionView::Dictionary(pairs),
                            start: opener.start,
                            end: closing.end,
                        },
                        next: after,
                    },
                    _ => Parsed::Fail {
                        error: ErrorType::ExpectedRCurly,
                        start: opener.start,
                        end: if pairs.len() > 0 {
                            pairs.last().1.end
                        } else {
                            opener.end
                        },
                    },
                },
                Parsed::Miss => Parsed::Miss,
                Parsed::Fail { error, start, end } => Parsed::Fail { error, start, end },
            }
        },
        _ => Parsed::Miss,
    }
}

/// An expression in parentheses, an array or a dictionary.
pub open spec fn bracketed(cs: Seq<char>, c: Cursor) -> Parsed<Spanned<ExpressionView>>
    decreases left(cs, c), 1nat,
{
    match grouping(cs, c) {
        Parsed::Miss => match array(cs, c) {
            Parsed::Miss => dictionary(cs, c),
            other => other,
        },
        other => other,
    }
}

/// Entries of a dictionary parted by commas, behind those in `so_far`. A
/// comma may follow the last of them.
pub open spec fn entries(
    cs: Seq<char>,
    c: Cursor,
    so_far: Seq<(Spanned<DictionaryKeyView>, Spanned<ExpressionView>)>,
) -> Parsed<Seq<(Spanned<DictionaryKeyView>, Spanned<ExpressionView>)>>
    decreases left(cs, c), 134nat,
{
    match entry(cs, c) {
        Parsed::Hit { value, next } => match symbol_eq(cs, next.after(c), Symbol::Comma) {
            Parsed::Hit { value: comma, next: behind } => {
                proof {
                    lemma_symbol_advances(cs, next.after(c));
                }
                entries(cs, behind, so_far.push(value))
            },
            _ => Parsed::Hit { value: so_far.push(value), next: next.after(c) },
        },
        Parsed::Miss => Parsed::Hit { value: so_far, next: c },
        Parsed::Fail { error, start, end } => Parsed::Fail { error, start, end },
    }
}

/// An entry of a dictionary: a key, a colon and a value.
pub open spec fn entry(cs: Seq<char>, c: Cursor) -> Parsed<
    (Spanned<DictionaryKeyView>, Spanned<ExpressionView>),
>
    decreases left(cs, c), 133nat,
{
    match entry_key(cs, c) {
        Parsed::Hit { value: key, next } => entry_value(cs, next.after(c), key),
        Parsed::Miss => Parsed::Miss,
        Parsed::Fail { error, start, end } => Parsed::Fail { error, start, end },
    }
}

/// The key of an entry: a name, or an expression in square brackets.
pub open spec fn entry_key(cs: Seq<char>, c: Cursor) -> Parsed<Spanned<DictionaryKeyView>>
    decreases left(cs, c), 132nat,
{
    match symbol_eq(cs, c, Symbol::LSquareBracket) {
        Parsed::Hit { value: opener, next } => {
            proof {
                lemma_symbol_advances(cs, c);
            }
            match expression(cs, next) {
                Parsed::Hit { value: key, next: behind } => match symbol_eq(
                    cs,
                    behind.after(next),
                    Symbol::RSquareBracket,
                ) {
                    Parsed::Hit { value: closing, next: after } => Parsed::Hit {
                        value: Spanned {
                            data: DictionaryKeyView::Expr(Box::new(key.data)),
                            start: opener.start,
                            end: closing.end,
                        },
                        next: after,
                    },
                    _ => Parsed::Fail {
                        error: ErrorType::ExpectedRSquare,
                        start: opener.start,
                        end: key.end,
                    },
                },
                Parsed::Miss => Parsed::Fail {
                    error: ErrorType::ExpectedExpr,
                    start: opener.start,
                    end: opener.end,
                },
                Parsed::Fail { error, start, end } => Parsed::Fail { error, start, end },
            }
        },
        _ => match ident(cs, c) {
            Parsed::Hit { value: name, next } => Parsed::Hit {
                value: Spanned {
                    data: DictionaryKeyView::Ident(name.data),
                    start: name.start,
                    end: name.end,
                },
                next,
            },
            _ => Parsed::Miss,
        },
    }
}

/// The colon and the value that follow the key of an entry.
pub open spec fn entry_value(cs: Seq<char>, c: Cursor, key: Spanned<DictionaryKeyView>) -> Parsed<
    (Spanned<DictionaryKeyView>, Spanned<ExpressionView>),
>
    decreases left(cs, c), 132nat,
{
    match symbol_eq(cs, c, Symbol::Colon) {
        Parsed::Hit { value: colon, next } => {
            proof {
                lemma_symbol_advances(cs, c);
            }
            match expression(cs, next) {
                Parsed::Hit { value, next: behind } => Parsed::Hit {
                    value: (key, value),
                    next: behind,
                },
                Parsed::Miss => Parsed::Fail {
                    error: ErrorType::ExpectedExpr,
                    start: key.start,
                    end: colon.end,
                },
                Parsed::Fail { error, start, end } => Parsed::Fail { error, start, end },
            }
        },
        _ => Parsed::Fail { error: ErrorType::ExpectedColon, start: key.start, end: key.end },
    }
}

} // verus!
