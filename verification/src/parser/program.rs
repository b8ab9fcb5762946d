//! The grammar of statements and declarations, as functions from the
//! characters of the stream and a cursor to what is read there. Spans count
//! characters of the stream.
//!
//! As in the grammar of expressions, each function is measured by the number
//! of characters that are left and by a rank that falls from caller to callee.

use crate::parser::error::ErrorType;
use crate::parser::grammar::{
    ident, keyword_eq, lemma_symbol_advances, lemma_word_advances, symbol_eq, trivia_end, Cursor,
    Parsed,
};
use crate::parser::parse_node::{Keyword, Symbol};
use crate::parser::syntax::{expression, last_end, left};
use crate::parser::view::{
    BlockView, DeclarationView, ElseBlockView, FuncBlockView, FuncDeclView, IfStatementView,
    Spanned, StatementView, VarDeclView, VarNameTypeView, WhileStatementView,
};
use crate::string_name::StringName;
use vstd::prelude::*;

verus! {

// ---------------------------------------------------------------------------
// Patterns

/// A name that a declaration binds, or `_`, which binds none.
pub open spec fn var_name(cs: Seq<char>, c: Cursor) -> Parsed<Spanned<Option<StringName>>> {
    match ident(cs, c) {
        Parsed::Hit { value, next } => Parsed::Hit {
            value: Spanned {
                data: if cs.subrange(value.start as int, value.end as int) == "_"@ {
                    None
                } else {
                    Some(value.data)
                },
                start: value.start,
                end: value.end,
            },
            next,
        },
        _ => Parsed::Miss,
    }
}

/// What was read of a list of names in square brackets.
pub struct Names {
    /// The opening bracket.
    pub opener: Spanned<Symbol>,
    /// The names before `...`, or all names where there is none.
    pub start_names: Seq<Spanned<Option<StringName>>>,
    /// The names behind `...`.
    pub end_names: Seq<Spanned<Option<StringName>>>,
    /// Whether `...` was read.
    pub dotted: bool,
    /// The end of what was read last.
    pub end: nat,
}

/// The closing bracket of a list of names.
pub open spec fn pattern_close(cs: Seq<char>, c: Cursor, read: Names) -> Parsed<
    Spanned<VarNameTypeView>,
> {
    match symbol_eq(cs, c, Symbol::RSquareBracket) {
        Parsed::Hit { value: closing, next } => Parsed::Hit {
            value: Spanned {
                data: VarNameTypeView::Array {
                    start_names: read.start_names,
                    end_names: read.end_names,
                },
                start: read.opener.start,
                end: closing.end,
            },
            next,
        },
        _ => Parsed::Fail {
            error: ErrorType::ExpectedRSquare,
            start: read.opener.start,
            end: read.end,
        },
    }
}

/// The rest of a list of names, from an item on: `...`, which may stand once,
/// or a name; then a comma and more, or the closing bracket.
pub open spec fn pattern_names(cs: Seq<char>, c: Cursor, read: Names) -> Parsed<
    Spanned<VarNameTypeView>,
>
    decreases left(cs, c), 1nat,
{
    match symbol_eq(cs, c, Symbol::Dots) {
        Parsed::Hit { value: dots, next } => {
            proof {
                lemma_symbol_advances(cs, c);
            }
            if read.dotted {
                Parsed::Fail { error: ErrorType::ExtraDots, start: dots.start, end: dots.end }
            } else {
                pattern_comma(
                    cs,
                    next,
                    Names {
                        opener: read.opener,
                        start_names: read.start_names,
                        end_names: read.end_names,
                        dotted: true,
                        end: dots.end,
                    },
                )
            }
        },
        _ => match var_name(cs, c) {
            Parsed::Hit { value: name, next } => {
                proof {
                    lemma_word_advances(cs, c);
                }
                pattern_comma(
                    cs,
                    next,
                    Names {
                        opener: read.opener,
                        start_names: if read.dotted {
                            read.start_names
                        } else {
                            read.start_names.push(name)
                        },
                        end_names: if read.dotted {
                            read.end_names.push(name)
                        } else {
                            read.end_names
                        },
                        dotted: read.dotted,
                        end: name.end,
                    },
                )
            },
            _ => pattern_close(cs, c, read),
        },
    }
}

/// A second `...` in a list of names is an error at that `...`.
pub proof fn law_second_dots(cs: Seq<char>, c: Cursor, read: Names)
    requires
        read.dotted,
        symbol_eq(cs, c, Symbol::Dots) is Hit,
    ensures
        pattern_names(cs, c, read) == (Parsed::<Spanned<VarNameTypeView>>::Fail {
            error: ErrorType::ExtraDots,
            start: symbol_eq(cs, c, Symbol::Dots)->value.start,
            end: symbol_eq(cs, c, Symbol::Dots)->value.end,
        }),
{
}

/// The rest of a list of names, behind an item: a comma and more items, or
/// the closing bracket.
pub open spec fn pattern_comma(cs: Seq<char>, c: Cursor, read: Names) -> Parsed<
    Spanned<VarNameTypeView>,
>
    decreases left(cs, c), 0nat,
{
    match symbol_eq(cs, c, Symbol::Comma) {
        Parsed::Hit { value: comma, next } => {
            proof {
                lemma_symbol_advances(cs, c);
            }
            pattern_names(
                cs,
                next,
                Names {
                    opener: read.opener,
                    start_names: read.start_names,
                    end_names: read.end_names,
                    dotted: read.dotted,
                    end: comma.end,
                },
            )
        },
        _ => pattern_close(cs, c, read),
    }
}

/// A pattern: one name, or names in square brackets. In the brackets `...`
/// may stand once: the names before it are for the first elements of a
/// sequence, those behind it for the last.
pub open spec fn pattern(cs: Seq<char>, c: Cursor) -> Parsed<Spanned<VarNameTypeView>> {
    match symbol_eq(cs, c, Symbol::LSquareBracket) {
        Parsed::Hit { value: opener, next } => pattern_names(
            cs,
            next,
            Names {
                opener,
                start_names: Seq::empty(),
                end_names: Seq::empty(),
                dotted: false,
                end: opener.end,
            },
        ),
        _ => match var_name(cs, c) {
            Parsed::Hit { value: name, next } => Parsed::Hit {
                value: Spanned {
                    data: VarNameTypeView::Ident(name.data),
                    start: name.start,
                    end: name.end,
                },
                next,
            },
            _ => Parsed::Miss,
        },
    }
}

/// A pattern and, behind `=`, the value that it is bound to.
pub open spec fn func_param(cs: Seq<char>, c: Cursor) -> Parsed<Spanned<VarDeclView>> {
    match pattern(cs, c) {
        Parsed::Hit { value: names, next } => match symbol_eq(cs, next, Symbol::Assign) {
            Parsed::Hit { value: sign, next: behind } => match expression(cs, behind) {
                Parsed::Hit { value, next: after } => Parsed::Hit {
                    value: Spanned {
                        data: VarDeclView { pattern: names, value: Some(value) },
                        start: names.start,
                        end: value.end,
                    },
                    next: after,
                },
                Parsed::Miss => Parsed::Fail {
                    error: ErrorType::ExpectedExpr,
                    start: names.start,
                    end: sign.end,
                },
                Parsed::Fail { error, start, end } => Parsed::Fail { error, start, end },
            },
            _ => Parsed::Hit {
                value: Spanned {
                    data: VarDeclView { pattern: names, value: None },
                    start: names.start,
                    end: names.end,
                },
                next,
            },
        },
        Parsed::Miss => Parsed::Miss,
        Parsed::Fail { error, start, end } => Parsed::Fail { error, start, end },
    }
}

/// A declaration of variables: `var`, a pattern and, if given, its value.
pub open spec fn var_decl(cs: Seq<char>, c: Cursor) -> Parsed<Spanned<VarDeclView>> {
    match keyword_eq(cs, c, Keyword::Var) {
        Parsed::Hit { value: word, next } => match func_param(cs, next) {
            Parsed::Hit { value, next: behind } => Parsed::Hit {
                value: Spanned { data: value.data, start: word.start, end: value.end },
                next: behind,
            },
            Parsed::Miss => Parsed::Fail {
                error: ErrorType::ExpectedVarName,
                start: word.start,
                end: word.end,
            },
            Parsed::Fail { error, start, end } => Parsed::Fail { error, start, end },
        },
        _ => Parsed::Miss,
    }
}

/// Parameters parted by commas, behind those in `so_far`. A comma may follow
/// the last of them.
pub open spec fn parameters(
    cs: Seq<char>,
    c: Cursor,
    so_far: Seq<Spanned<VarDeclView>>,
) -> Parsed<Seq<Spanned<VarDeclView>>>
    decreases left(cs, c),
{
    match func_param(cs, c) {
        Parsed::Hit { value, next } => match symbol_eq(cs, next.after(c), Symbol::Comma) {
            Parsed::Hit { value: comma, next: behind } => {
                proof {
                    lemma_symbol_advances(cs, next.after(c));
                }
                parameters(cs, behind, so_far.push(value))
            },
            _ => Parsed::Hit { value: so_far.push(value), next: next.after(c) },
        },
        Parsed::Miss => Parsed::Hit { value: so_far, next: c },
        Parsed::Fail { error, start, end } => Parsed::Fail { error, start, end },
    }
}

// ---------------------------------------------------------------------------
// Statements

/// Whether a semicolon must follow the statement: it must behind an
/// expression and behind a declaration of variables.
pub open spec fn requires_semicolon(s: StatementView) -> bool {
    match s {
        StatementView::Expression(_) => true,
        StatementView::Declaration(DeclarationView::Var(_)) => true,
        _ => false,
    }
}

/// Whether the cursor moved on, inside the text. It does behind every
/// statement, since a statement takes at least one character.
pub open spec fn moved(cs: Seq<char>, from: Cursor, to: Cursor) -> bool {
    from.at < to.at <= cs.len()
}

/// Statements one after the other, behind those in `so_far`, as far as they
/// go. The trivia behind the last of them is skipped.
pub open spec fn statements(
    cs: Seq<char>,
    c: Cursor,
    so_far: Seq<Spanned<StatementView>>,
) -> Parsed<Seq<Spanned<StatementView>>>
    decreases left(cs, c), 8nat,
{
    match terminated(cs, c) {
        Parsed::Hit { value, next } => {
            if moved(cs, c, next) {
                statements(cs, next, so_far.push(value))
            } else {
                Parsed::Hit { value: so_far.push(value), next }
            }
        },
        Parsed::Miss => Parsed::Hit { value: so_far, next: c.to(trivia_end(cs, c.at)) },
        Parsed::Fail { error, start, end } => Parsed::Fail { error, start, end },
    }
}

/// A statement with the semicolon that ends it, where it needs one. The
/// semicolon belongs to the statement's span.
pub open spec fn terminated(cs: Seq<char>, c: Cursor) -> Parsed<Spanned<StatementView>>
    decreases left(cs, c), 7nat,
{
    match statement(cs, c) {
        Parsed::Hit { value, next } => {
            if requires_semicolon(value.data) {
                match symbol_eq(cs, next, Symbol::Semicolon) {
                    Parsed::Hit { value: semicolon, next: behind } => Parsed::Hit {
                        value: Spanned { data: value.data, start: value.start, end: semicolon.end },
                        next: behind,
                    },
                    _ => Parsed::Fail {
                        error: ErrorType::ExpectedSemicolon,
                        start: value.start,
                        end: value.end,
                    },
                }
            } else {
                Parsed::Hit { value, next }
            }
        },
        other => other,
    }
}

/// A statement: a declaration, an `if`, a `while`, a block
/// or an expression, whichever comes first in this order.
pub open spec fn statement(cs: Seq<char>, c: Cursor) -> Parsed<Spanned<StatementView>>
    decreases left(cs, c), 6nat,
{
    match declaration(cs, c) {
        Parsed::Hit { value, next } => Parsed::Hit {
            value: Spanned {
                data: StatementView::Declaration(value.data),
                start: value.start,
                end: value.end,
            },
            next,
        },
        Parsed::Fail { error, start, end } => Parsed::Fail { error, start, end },
        Parsed::Miss => branching(cs, c),
    }
}

/// A statement that is no declaration: an `if`, a `while`, a block or an
/// expression.
pub open spec fn branching(cs: Seq<char>, c: Cursor) -> Parsed<Spanned<StatementView>>
    decreases left(cs, c), 5nat,
{
    match if_statement(cs, c) {
        Parsed::Hit { value, next } => Parsed::Hit {
            value: Spanned {
                data: StatementView::If(value.data),
                start: value.start,
                end: value.end,
            },
            next,
        },
        Parsed::Fail { error, start, end } => Parsed::Fail { error, start, end },
        Parsed::Miss => match while_statement(cs, c) {
            Parsed::Hit { value, next } => Parsed::Hit {
                value: Spanned {
                    data: StatementView::While(value.data),
                    start: value.start,
                    end: value.end,
                },
                next,
            },
            Parsed::Fail { error, start, end } => Parsed::Fail { error, start, end },
            Parsed::Miss => plain(cs, c),
        },
    }
}

/// A statement that starts with no keyword: a block or an expression.
pub open spec fn plain(cs: Seq<char>, c: Cursor) -> Parsed<Spanned<StatementView>>
    decreases left(cs, c), 1nat,
{
    match block(cs, c) {
        Parsed::Hit { value, next } => Parsed::Hit {
            value: Spanned {
                data: StatementView::Block(value.data),
                start: value.start,
                end: value.end,
            },
            next,
        },
        Parsed::Fail { error, start, end } => Parsed::Fail { error, start, end },
        Parsed::Miss => match expression(cs, c) {
            Parsed::Hit { value, next } => Parsed::Hit {
                value: Spanned {
                    data: StatementView::Expression(value.data),
                    start: value.start,
                    end: value.end,
                },
                next,
            },
            Parsed::Miss => Parsed::Miss,
            Parsed::Fail { error, start, end } => Parsed::Fail { error, start, end },
        },
    }
}

/// A block: statements in curly brackets.
pub open spec fn block(cs: Seq<char>, c: Cursor) -> Parsed<Spanned<BlockView>>
    decreases left(cs, c), 0nat,
{
    match symbol_eq(cs, c, Symbol::LCurlyBracket) {
        Parsed::Hit { value: opener, next } => {
            proof {
                lemma_symbol_advances(cs, c);
            }
            match statements(cs, next, Seq::empty()) {
                Parsed::Hit { value: inner, next: behind } => match symbol_eq(
                    cs,
                    behind,
                    Symbol::RCurlyBracket,
                ) {
                    Parsed::Hit { value: closing, next: after } => Parsed::Hit {
                        value: Spanned {
                            data: BlockView { statements: inner },
                            start: opener.start,
                            end: closing.end,
                        },
                        next: after,
                    },
                    _ => Parsed::Fail {
                        error: ErrorType::ExpectedRCurly,
                        start: opener.start,
                        end: last_end(inner, opener.end),
                    },
                },
                Parsed::Miss => Parsed::Miss,
                Parsed::Fail { error, start, end } => Parsed::Fail { error, start, end },
            }
        },
        _ => Parsed::Miss,
    }
}

/// A declaration: of variables, or of a function.
pub open spec fn declaration(cs: Seq<char>, c: Cursor) -> Parsed<Spanned<DeclarationView>>
    decreases left(cs, c), 3nat,
{
    match var_decl(cs, c) {
        Parsed::Hit { value, next } => Parsed::Hit {
            value: Spanned {
                data: DeclarationView::Var(value.data),
                start: value.start,
                end: value.end,
            },
            next,
        },
        Parsed::Fail { error, start, end } => Parsed::Fail { error, start, end },
        Parsed::Miss => match func_decl(cs, c) {
            Parsed::Hit { value, next } => Parsed::Hit {
                value: Spanned {
                    data: DeclarationView::Func(value.data),
                    start: value.start,
                    end: value.end,
                },
                next,
            },
            Parsed::Miss => Parsed::Miss,
            Parsed::Fail { error, start, end } => Parsed::Fail { error, start, end },
        },
    }
}

/// A declaration of a function: `func`, its name, its parameters in
/// parentheses, and what it does.
pub open spec fn func_decl(cs: Seq<char>, c: Cursor) -> Parsed<Spanned<FuncDeclView>>
    decreases left(cs, c), 2nat,
{
    match keyword_eq(cs, c, Keyword::Func) {
        Parsed::Hit { value: word, next } => {
            proof {
                lemma_word_advances(cs, c);
            }
            match ident(cs, next) {
                Parsed::Hit { value: name, next: behind } => match parenthesized(
                    cs,
                    behind,
                    word,
                    name,
                ) {
                    Parsed::Hit { value: (params, closing), next: body } => match func_block(
                        cs,
                        body.after(next),
                        word,
                        closing,
                    ) {
                        Parsed::Hit { value: does, next: end } => Parsed::Hit {
                            value: Spanned {
                                data: FuncDeclView { name, params, block: does },
                                start: word.start,
                                end: does.end,
                            },
                            next: end,
                        },
                        Parsed::Miss => Parsed::Miss,
                        Parsed::Fail { error, start, end } => Parsed::Fail { error, start, end },
                    },
                    Parsed::Miss => Parsed::Miss,
                    Parsed::Fail { error, start, end } => Parsed::Fail { error, start, end },
                },
                _ => Parsed::Fail {
                    error: ErrorType::ExpectedFuncName,
                    start: word.start,
                    end: word.end,
                },
            }
        },
        _ => Parsed::Miss,
    }
}

/// The parameters of a function in their parentheses, with the closing one.
/// `word` is the `func` that opened the declaration, `name` the function's
/// name.
pub open spec fn parenthesized(
    cs: Seq<char>,
    c: Cursor,
    word: Spanned<Keyword>,
    name: Spanned<StringName>,
) -> Parsed<(Seq<Spanned<VarDeclView>>, Spanned<Symbol>)> {
    match symbol_eq(cs, c, Symbol::LParenthesis) {
        Parsed::Hit { value: opener, next: inside } => match parameters(cs, inside, Seq::empty()) {
            Parsed::Hit { value: params, next: after } => match symbol_eq(
                cs,
                after,
                Symbol::RParenthesis,
            ) {
                Parsed::Hit { value: closing, next } => Parsed::Hit {
                    value: (params, closing),
                    next,
                },
                _ => Parsed::Fail {
                    error: ErrorType::ExpectedRParen,
                    start: opener.start,
                    end: last_end(params, opener.end),
                },
            },
            Parsed::Miss => Parsed::Miss,
            Parsed::Fail { error, start, end } => Parsed::Fail { error, start, end },
        },
        _ => Parsed::Fail { error: ErrorType::ExpectedLParen, start: word.start, end: name.end },
    }
}

/// What a function does: a block, or `->` and the expression whose value it
/// returns. `word` is the `func` that opened the declaration and `closing`
/// the parenthesis that closed its parameters.
pub open spec fn func_block(
    cs: Seq<char>,
    c: Cursor,
    word: Spanned<Keyword>,
    closing: Spanned<Symbol>,
) -> Parsed<Spanned<FuncBlockView>>
    decreases left(cs, c), 1nat,
{
    match block(cs, c) {
        Parsed::Hit { value, next } => Parsed::Hit {
            value: Spanned {
                data: FuncBlockView::Block(value.data),
                start: value.start,
                end: value.end,
            },
            next,
        },
        Parsed::Fail { error, start, end } => Parsed::Fail { error, start, end },
        Parsed::Miss => match symbol_eq(cs, c, Symbol::RightArrow) {
            Parsed::Hit { value: arrow, next } => match expression(cs, next) {
                Parsed::Hit { value, next: behind } => Parsed::Hit {
                    value: Spanned {
                        data: FuncBlockView::ReturnExpr(value.data),
                        start: value.start,
                        end: value.end,
                    },
                    next: behind,
                },
                Parsed::Miss => Parsed::Fail {
                    error: ErrorType::ExpectedExpr,
                    start: arrow.start,
                    end: arrow.end,
                },
                Parsed::Fail { error, start, end } => Parsed::Fail { error, start, end },
            },
            _ => Parsed::Fail {
                error: ErrorType::ExpectedFuncBlock,
                start: word.start,
                end: closing.end,
            },
        },
    }
}

/// A condition and the block that it guards, behind the keyword `word`.
pub open spec fn guarded(cs: Seq<char>, c: Cursor, word: Spanned<Keyword>) -> Parsed<
    (Spanned<crate::parser::view::ExpressionView>, Spanned<BlockView>),
>
    decreases left(cs, c), 1nat,
{
    match expression(cs, c) {
        Parsed::Hit { value: condition, next } => match block(cs, next.after(c)) {
            Parsed::Hit { value: body, next: behind } => Parsed::Hit {
                value: (condition, body),
                next: behind,
            },
            Parsed::Miss => Parsed::Fail {
                error: ErrorType::ExpectedBlock,
                start: word.start,
                end: condition.end,
            },
            Parsed::Fail { error, start, end } => Parsed::Fail { error, start, end },
        },
        Parsed::Miss => Parsed::Fail {
            error: ErrorType::ExpectedExpr,
            start: word.start,
            end: word.end,
        },
        Parsed::Fail { error, start, end } => Parsed::Fail { error, start, end },
    }
}

/// The end of the piece, or `otherwise` where there is none.
pub open spec fn end_or<T>(piece: Option<Spanned<T>>, otherwise: nat) -> nat {
    match piece {
        Some(p) => p.end,
        None => otherwise,
    }
}

/// An `if`: a condition and its block, then what follows for the case that
/// the condition does not hold.
pub open spec fn if_statement(cs: Seq<char>, c: Cursor) -> Parsed<Spanned<IfStatementView>>
    decreases left(cs, c), 2nat,
{
    match keyword_eq(cs, c, Keyword::If) {
        Parsed::Hit { value: word, next } => {
            proof {
                lemma_word_advances(cs, c);
            }
            match guarded(cs, next, word) {
                Parsed::Hit { value: (condition, body), next: behind } => match else_chain(
                    cs,
                    behind.after(next),
                ) {
                    Parsed::Hit { value: otherwise, next: after } => Parsed::Hit {
                        value: Spanned {
                            data: IfStatementView {
                                condition,
                                met_block: body,
                                else_block: otherwise,
                            },
                            start: word.start,
                            end: end_or(otherwise, body.end),
                        },
                        next: after,
                    },
                    Parsed::Miss => Parsed::Miss,
                    Parsed::Fail { error, start, end } => Parsed::Fail { error, start, end },
                },
                Parsed::Miss => Parsed::Miss,
                Parsed::Fail { error, start, end } => Parsed::Fail { error, start, end },
            }
        },
        _ => Parsed::Miss,
    }
}

/// What follows the block of an `if`: any number of `elif` with a condition
/// and a block, then `else` with a block, if there is one. Each `elif` is an
/// `if` of its own, which holds all that follows it.
pub open spec fn else_chain(cs: Seq<char>, c: Cursor) -> Parsed<Option<Spanned<ElseBlockView>>>
    decreases left(cs, c), 2nat,
{
    match keyword_eq(cs, c, Keyword::Elif) {
        Parsed::Hit { value: word, next } => {
            proof {
                lemma_word_advances(cs, c);
            }
            match guarded(cs, next, word) {
                Parsed::Hit { value: (condition, body), next: behind } => match else_chain(
                    cs,
                    behind.after(next),
                ) {
                    Parsed::Hit { value: otherwise, next: after } => Parsed::Hit {
                        value: Some(
                            Spanned {
                                data: ElseBlockView::If(
                                    Box::new(
                                        IfStatementView {
                                            condition,
                                            met_block: body,
                                            else_block: otherwise,
                                        },
                                    ),
                                ),
                                start: word.start,
                                end: end_or(otherwise, body.end),
                            },
                        ),
                        next: after,
                    },
                    Parsed::Miss => Parsed::Miss,
                    Parsed::Fail { error, start, end } => Parsed::Fail { error, start, end },
                },
                Parsed::Miss => Parsed::Miss,
                Parsed::Fail { error, start, end } => Parsed::Fail { error, start, end },
            }
        },
        _ => match hook(cs, c, Keyword::Else) {
            Parsed::Hit { value, next } => Parsed::Hit {
                value: Some(
                    Spanned {
                        data: ElseBlockView::Block(value.data),
                        start: value.start,
                        end: value.end,
                    },
                ),
                next,
            },
            Parsed::Miss => Parsed::Hit { value: None, next: c },
            Parsed::Fail { error, start, end } => Parsed::Fail { error, start, end },
        },
    }
}

/// A keyword and the block that must follow it. The keyword belongs to the
/// block's span.
pub open spec fn hook(cs: Seq<char>, c: Cursor, word: Keyword) -> Parsed<Spanned<BlockView>>
    decreases left(cs, c), 1nat,
{
    match keyword_eq(cs, c, word) {
        Parsed::Hit { value: found, next } => {
            proof {
                lemma_word_advances(cs, c);
            }
            match block(cs, next) {
                Parsed::Hit { value, next: behind } => Parsed::Hit {
                    value: Spanned { data: value.data, start: found.start, end: value.end },
                    next: behind,
                },
                Parsed::Miss => Parsed::Fail {
                    error: ErrorType::ExpectedBlock,
                    start: found.start,
                    end: found.end,
                },
                Parsed::Fail { error, start, end } => Parsed::Fail { error, start, end },
            }
        },
        _ => Parsed::Miss,
    }
}

/// The blocks that may follow the block of a `while`, and the end of the last
/// of them.
pub struct Hooks {
    pub on_break: Option<Spanned<BlockView>>,
    pub on_continue: Option<Spanned<BlockView>>,
    pub end: nat,
}

/// The hook that may follow a first one: the one for the loop's next round
/// behind the one for its end, or the other way round.
pub open spec fn second_hook(
    cs: Seq<char>,
    c: Cursor,
    first: Spanned<BlockView>,
    first_is_break: bool,
) -> Parsed<Hooks>
    decreases left(cs, c), 2nat,
{
    match hook(
        cs,
        c,
        if first_is_break {
            Keyword::OnContinue
        } else {
            Keyword::OnBreak
        },
    ) {
        Parsed::Hit { value: second, next } => Parsed::Hit {
            value: if first_is_break {
                Hooks { on_break: Some(first), on_continue: Some(second), end: second.end }
            } else {
                Hooks { on_break: Some(second), on_continue: Some(first), end: second.end }
            },
            next,
        },
        Parsed::Miss => Parsed::Hit {
            value: if first_is_break {
                Hooks { on_break: Some(first), on_continue: None, end: first.end }
            } else {
                Hooks { on_break: None, on_continue: Some(first), end: first.end }
            },
            next: c,
        },
        Parsed::Fail { error, start, end } => Parsed::Fail { error, start, end },
    }
}

/// What may follow the block of a `while`, which ended at `end`: in either
/// order and each at most once, `onbreak` with a block and `oncontinue` with
/// a block.
pub open spec fn while_hooks(cs: Seq<char>, c: Cursor, end: nat) -> Parsed<Hooks>
    decreases left(cs, c), 3nat,
{
    match hook(cs, c, Keyword::OnBreak) {
        Parsed::Hit { value: first, next } => second_hook(cs, next.after(c), first, true),
        Parsed::Fail { error, start, end } => Parsed::Fail { error, start, end },
        Parsed::Miss => match hook(cs, c, Keyword::OnContinue) {
            Parsed::Hit { value: first, next } => second_hook(cs, next.after(c), first, false),
            Parsed::Miss => Parsed::Hit {
                value: Hooks { on_break: None, on_continue: None, end },
                next: c,
            },
            Parsed::Fail { error, start, end } => Parsed::Fail { error, start, end },
        },
    }
}

/// A `while`: a condition and its block, then the blocks for the loop's end
/// and for its next round, if there are any.
pub open spec fn while_statement(cs: Seq<char>, c: Cursor) -> Parsed<Spanned<WhileStatementView>>
    decreases left(cs, c), 4nat,
{
    match keyword_eq(cs, c, Keyword::While) {
        Parsed::Hit { value: word, next } => {
            proof {
                lemma_word_advances(cs, c);
            }
            match guarded(cs, next, word) {
                Parsed::Hit { value: (condition, body), next: behind } => match while_hooks(
                    cs,
                    behind.after(next),
                    body.end,
                ) {
                    Parsed::Hit { value: hooks, next: after } => Parsed::Hit {
                        value: Spanned {
                            data: WhileStatementView {
                                condition,
                                loop_block: body,
                                on_break: hooks.on_break,
                                on_continue: hooks.on_continue,
                            },
                            start: word.start,
                            end: hooks.end,
                        },
                        next: after,
                    },
                    Parsed::Miss => Parsed::Miss,
                    Parsed::Fail { error, start, end } => Parsed::Fail { error, start, end },
                },
                Parsed::Miss => Parsed::Miss,
                Parsed::Fail { error, start, end } => Parsed::Fail { error, start, end },
            }
        },
        _ => Parsed::Miss,
    }
}

/// A whole program: statements up to the end of the text. Anything but
/// trivia behind the last statement is an error at its first character.
pub open spec fn program(cs: Seq<char>, c: Cursor) -> Parsed<Seq<Spanned<StatementView>>> {
    match statements(cs, c, Seq::empty()) {
        Parsed::Hit { value, next } => {
            let rest = trivia_end(cs, next.at);
            if rest < cs.len() {
                Parsed::Fail { error: ErrorType::ExpectedEOF, start: rest, end: rest + 1 }
            } else {
                Parsed::Hit { value, next: next.to(rest) }
            }
        },
        other => other,
    }
}

} // verus!
