//! The grammar reads forward: a piece that was read starts at or behind the
//! cursor, is not empty, lies in the text and ends where the next cursor
//! stands, and the names that were interned keep their places.

use crate::parser::grammar::{
    advances, character, close_end, decimal, escape, integer, lemma_escape, lemma_run_end,
    lemma_skip, number, radix, run_end, scientific, sign_end, string, text_body, trivia_end,
    Class, Cursor, Delimiter, Escape, Parsed,
};
use crate::parser::grammar::{
    ident, keyword, keyword_eq, lemma_symbol_advances, lemma_word_advances, symbol, symbol_eq,
};
use crate::parser::parse_node::{Keyword, Symbol};
use crate::parser::syntax::{
    arguments, array, binary, binary_rest, bracketed, dictionary, entries, entry, entry_key,
    entry_value, expression, grouping, is_prefix, left, named, operand, operator, primary, suffix,
    suffix_rest, top_level, unary,
};
use crate::parser::program::{
    block, branching, declaration, else_chain, func_block, func_decl, func_param, guarded, hook,
    if_statement, moved, parameters, parenthesized, pattern, pattern_close, pattern_comma,
    pattern_names, plain, program, second_hook, statement, statements, terminated, var_decl,
    var_name, while_hooks, while_statement, Names,
};
use crate::parser::view::{
    BlockView, DictionaryKeyView, ExpressionView, Spanned, StatementView, SuffixTypeView,
    VarDeclView,
};
use crate::string_name::StringName;
use vstd::prelude::*;

verus! {

/// An integer that was read is not empty and ends where the next cursor
/// stands.
pub proof fn lemma_integer_advances(cs: Seq<char>, c: Cursor, radix: nat)
    requires
        c.at <= cs.len(),
    ensures
        advances(integer(cs, c, radix), cs, c),
        integer(cs, c, radix) matches Parsed::Hit { value, next } ==> value.start == c.at
            && next.names == c.names,
{
    reveal(integer);
    lemma_run_end(cs, c.at, Class::Digit(radix));
}

/// A number that was read is not empty and ends where the next cursor stands.
pub proof fn lemma_number_advances(cs: Seq<char>, c: Cursor)
    ensures
        advances(number(cs, c), cs, c),
        number(cs, c) matches Parsed::Hit { value, next } ==> next.names == c.names,
{
    reveal(number);
    reveal(radix);
    reveal(scientific);
    reveal(decimal);
    reveal(integer);
    lemma_skip(cs, c.at);
    let p = trivia_end(cs, c.at);
    if p <= cs.len() {
        let start = c.to(p);
        match radix(cs, start) {
            Parsed::Hit { value: prefix, next: digits } => {
                lemma_integer_advances(cs, digits, prefix.data as nat);
            },
            _ => {
                lemma_integer_advances(cs, start, 10);
                match integer(cs, start, 10) {
                    Parsed::Hit { value, next } => {
                        if next.at < cs.len() && cs[next.at as int] == '.' {
                            lemma_integer_advances(cs, next.to(next.at + 1), 10);
                        }
                    },
                    _ => {},
                }
                match decimal(cs, start) {
                    Parsed::Hit { value, next } => {
                        if next.at < cs.len() {
                            let digits = sign_end(cs, next.at + 1);
                            lemma_integer_advances(cs, next.to(digits), 10);
                        }
                    },
                    _ => {},
                }
            },
        }
    }
}

/// The body of a literal of text that was read ends behind where it was
/// entered, inside the text, where the next cursor stands.
pub proof fn lemma_text_advances(
    cs: Seq<char>,
    c: Cursor,
    start: nat,
    by: Delimiter,
    so_far: Seq<char>,
)
    requires
        c.at <= cs.len(),
    ensures
        text_body(cs, c, start, by, so_far) matches Parsed::Hit { value, next } ==> {
            &&& value.start == start
            &&& c.at < value.end <= cs.len()
            &&& next.at == value.end
            &&& next.names == c.names
        },
    decreases cs.len() - c.at,
{
    match close_end(cs, c.at, by) {
        Some(end) => {
            match by.depth {
                Some(depth) => {
                    lemma_run_end(cs, c.at + 1, Class::Exactly(')'));
                },
                None => {},
            }
        },
        None => {
            if c.at < cs.len() {
                if cs[c.at as int] == '\\' && by.escapes() {
                    lemma_escape(cs, c.at + 1);
                    match escape(cs, c.at + 1) {
                        Escape::Char { c: decoded, next } => {
                            lemma_text_advances(cs, c.to(next), start, by, so_far.push(decoded));
                        },
                        _ => {},
                    }
                } else {
                    lemma_text_advances(
                        cs,
                        c.to(c.at + 1),
                        start,
                        by,
                        so_far.push(cs[c.at as int]),
                    );
                }
            }
        },
    }
}

/// A string that was read is not empty and ends where the next cursor stands.
pub proof fn lemma_string_advances(cs: Seq<char>, c: Cursor)
    ensures
        advances(string(cs, c), cs, c),
        string(cs, c) matches Parsed::Hit { value, next } ==> next.names == c.names,
{
    reveal(string);
    lemma_skip(cs, c.at);
    let p = trivia_end(cs, c.at);
    if p < cs.len() {
        if cs[p as int] == 'r' {
            let quote = run_end(cs, p + 1, Class::Exactly('('));
            lemma_run_end(cs, p + 1, Class::Exactly('('));
            if quote < cs.len() && cs[quote as int] == '"' {
                lemma_text_advances(
                    cs,
                    c.to(quote + 1),
                    p,
                    Delimiter {
                        quote: '"',
                        depth: Some((quote - (p + 1)) as nat),
                        incomplete: crate::parser::error::ErrorType::IncompleteString,
                    },
                    Seq::empty(),
                );
            }
        } else if cs[p as int] == '"' {
            lemma_text_advances(
                cs,
                c.to(p + 1),
                p,
                Delimiter {
                    quote: '"',
                    depth: None,
                    incomplete: crate::parser::error::ErrorType::IncompleteString,
                },
                Seq::empty(),
            );
        }
    }
}

/// A character that was read is not empty and ends where the next cursor
/// stands.
pub proof fn lemma_character_advances(cs: Seq<char>, c: Cursor)
    ensures
        advances(character(cs, c), cs, c),
        character(cs, c) matches Parsed::Hit { value, next } ==> next.names == c.names,
{
    reveal(character);
    lemma_skip(cs, c.at);
    let p = trivia_end(cs, c.at);
    if p < cs.len() && cs[p as int] == '\'' {
        lemma_text_advances(
            cs,
            c.to(p + 1),
            p,
            Delimiter {
                quote: '\'',
                depth: None,
                incomplete: crate::parser::error::ErrorType::IncompleteChar,
            },
            Seq::empty(),
        );
    }
}

// ---------------------------------------------------------------------------
// Expressions

/// A piece that was read from `c` on starts at or behind `c`, is not empty,
/// lies in the text and ends where the next cursor stands.
pub open spec fn forward<T>(read: Parsed<Spanned<T>>, cs: Seq<char>, c: Cursor) -> bool {
    read matches Parsed::Hit { value, next } ==> {
        &&& c.at <= value.start < value.end <= cs.len()
        &&& next.at == value.end
    }
}

/// What was read from `c` on leaves the cursor at or behind `c`, in the text.
pub open spec fn onward<T>(read: Parsed<T>, cs: Seq<char>, c: Cursor) -> bool {
    read matches Parsed::Hit { value, next } ==> c.at <= next.at <= cs.len()
}

/// A piece that was made longer from `c` on still starts at `start`, and ends
/// at or behind `c`, in the text, where the next cursor stands.
pub open spec fn longer<T>(read: Parsed<Spanned<T>>, cs: Seq<char>, c: Cursor, start: nat) -> bool {
    read matches Parsed::Hit { value, next } ==> {
        &&& value.start == start
        &&& start < value.end <= cs.len()
        &&& next.at == value.end
        &&& c.at <= next.at
    }
}

/// A token that was read reads forward.
pub proof fn lemma_tokens_forward(cs: Seq<char>, c: Cursor)
    ensures
        forward(ident(cs, c), cs, c),
        forward(keyword(cs, c), cs, c),
        forall|k: Keyword| forward(#[trigger] keyword_eq(cs, c, k), cs, c),
        forward(symbol(cs, c), cs, c),
        forall|s: Symbol| forward(#[trigger] symbol_eq(cs, c, s), cs, c),
        forward(number(cs, c), cs, c),
        forward(string(cs, c), cs, c),
        forward(character(cs, c), cs, c),
        forall|level: nat| forward(#[trigger] operator(cs, c, level), cs, c),
{
    lemma_word_advances(cs, c);
    lemma_symbol_advances(cs, c);
    lemma_number_advances(cs, c);
    lemma_string_advances(cs, c);
    lemma_character_advances(cs, c);
}

/// An expression that was read reads forward.
pub proof fn lemma_expression_forward(cs: Seq<char>, c: Cursor)
    ensures
        forward(expression(cs, c), cs, c),
    decreases left(cs, c), 131nat,
{
    lemma_binary_forward(cs, c, top_level());
}

/// An operand that was read reads forward.
pub proof fn lemma_operand_forward(cs: Seq<char>, c: Cursor, level: nat)
    ensures
        forward(operand(cs, c, level), cs, c),
    decreases left(cs, c), 10 * level + 28,
{
    if level == 0 {
        lemma_suffix_forward(cs, c);
    } else if level == 1 {
        lemma_unary_forward(cs, c);
    } else if level <= top_level() {
        lemma_binary_forward(cs, c, (level - 1) as nat);
    }
}

/// Operands joined by operators read forward.
pub proof fn lemma_binary_forward(cs: Seq<char>, c: Cursor, level: nat)
    ensures
        forward(binary(cs, c, level), cs, c),
    decreases left(cs, c), 10 * level + 30,
{
    if level <= top_level() {
        lemma_operand_forward(cs, c, level);
        match operand(cs, c, level) {
            Parsed::Hit { value, next } => {
                lemma_binary_rest_forward(cs, next, level, value);
            },
            _ => {},
        }
    }
}

/// Operators and operands behind an operand make it longer.
pub proof fn lemma_binary_rest_forward(
    cs: Seq<char>,
    c: Cursor,
    level: nat,
    lhs: Spanned<ExpressionView>,
)
    requires
        lhs.start < lhs.end == c.at <= cs.len(),
    ensures
        longer(binary_rest(cs, c, level, lhs), cs, c, lhs.start),
    decreases left(cs, c), 10 * level + 25,
{
    lemma_tokens_forward(cs, c);
    match operator(cs, c, level) {
        Parsed::Hit { value: op, next } => {
            lemma_operand_forward(cs, next, level);
            match operand(cs, next, level) {
                Parsed::Hit { value: rhs, next: behind } => {
                    lemma_binary_rest_forward(
                        cs,
                        behind,
                        level,
                        Spanned {
                            data: ExpressionView::Binary {
                                left: Box::new(lhs),
                                right: Box::new(rhs),
                                operator: op.data,
                            },
                            start: lhs.start,
                            end: rhs.end,
                        },
                    );
                },
                _ => {},
            }
        },
        _ => {},
    }
}

/// An operand with its prefix operators reads forward.
pub proof fn lemma_unary_forward(cs: Seq<char>, c: Cursor)
    ensures
        forward(unary(cs, c), cs, c),
    decreases left(cs, c), 35nat,
{
    lemma_tokens_forward(cs, c);
    match symbol(cs, c) {
        Parsed::Hit { value: op, next } => {
            if is_prefix(op.data) {
                lemma_unary_forward(cs, next);
            } else {
                lemma_binary_forward(cs, c, 0);
            }
        },
        _ => {
            lemma_binary_forward(cs, c, 0);
        },
    }
}

/// A primary expression with its suffixes reads forward.
pub proof fn lemma_suffix_forward(cs: Seq<char>, c: Cursor)
    ensures
        forward(suffix(cs, c), cs, c),
    decreases left(cs, c), 5nat,
{
    lemma_primary_forward(cs, c);
    match primary(cs, c) {
        Parsed::Hit { value, next } => {
            lemma_suffix_rest_forward(cs, next, value);
        },
        _ => {},
    }
}

/// Suffixes behind an expression make it longer.
pub proof fn lemma_suffix_rest_forward(cs: Seq<char>, c: Cursor, base: Spanned<ExpressionView>)
    requires
        base.start < base.end == c.at <= cs.len(),
    ensures
        longer(suffix_rest(cs, c, base), cs, c, base.start),
    decreases left(cs, c), 4nat,
{
    lemma_tokens_forward(cs, c);
    match symbol(cs, c) {
        Parsed::Hit { value: opener, next } => {
            lemma_tokens_forward(cs, next);
            if opener.data == Symbol::Dot {
                match ident(cs, next) {
                    Parsed::Hit { value: name, next: behind } => {
                        lemma_suffix_rest_forward(
                            cs,
                            behind,
                            Spanned {
                                data: ExpressionView::Suffix {
                                    node: Box::new(base),
                                    suffix: SuffixTypeView::Property(name.data),
                                },
                                start: base.start,
                                end: name.end,
                            },
                        );
                    },
                    _ => {},
                }
            } else if opener.data == Symbol::LSquareBracket {
                lemma_expression_forward(cs, next);
                match expression(cs, next) {
                    Parsed::Hit { value: index, next: behind } => {
                        lemma_tokens_forward(cs, behind);
                        match symbol_eq(cs, behind, Symbol::RSquareBracket) {
                            Parsed::Hit { value: closing, next: after } => {
                                lemma_suffix_rest_forward(
                                    cs,
                                    after,
                                    Spanned {
                                        data: ExpressionView::Suffix {
                                            node: Box::new(base),
                                            suffix: SuffixTypeView::Index(Box::new(index)),
                                        },
                                        start: base.start,
                                        end: closing.end,
                                    },
                                );
                            },
                            _ => {},
                        }
                    },
                    _ => {},
                }
            } else if opener.data == Symbol::LParenthesis {
                lemma_arguments_forward(cs, next, Seq::empty());
                match arguments(cs, next, Seq::empty()) {
                    Parsed::Hit { value: args, next: behind } => {
                        lemma_tokens_forward(cs, behind);
                        match symbol_eq(cs, behind, Symbol::RParenthesis) {
                            Parsed::Hit { value: closing, next: after } => {
                                lemma_suffix_rest_forward(
                                    cs,
                                    after,
                                    Spanned {
                                        data: ExpressionView::Suffix {
                                            node: Box::new(base),
                                            suffix: SuffixTypeView::Call(args),
                                        },
                                        start: base.start,
                                        end: closing.end,
                                    },
                                );
                            },
                            _ => {},
                        }
                    },
                    _ => {},
                }
            }
        },
        _ => {},
    }
}

/// Expressions parted by commas read forward.
pub proof fn lemma_arguments_forward(
    cs: Seq<char>,
    c: Cursor,
    so_far: Seq<Spanned<ExpressionView>>,
)
    requires
        c.at <= cs.len(),
    ensures
        onward(arguments(cs, c, so_far), cs, c),
    decreases left(cs, c), 132nat,
{
    lemma_skip(cs, c.at);
    lemma_expression_forward(cs, c);
    match expression(cs, c) {
        Parsed::Hit { value, next } => {
            lemma_tokens_forward(cs, next);
            match symbol_eq(cs, next, Symbol::Comma) {
                Parsed::Hit { value: comma, next: behind } => {
                    lemma_arguments_forward(cs, behind, so_far.push(value));
                },
                _ => {},
            }
        },
        _ => {},
    }
}

/// A primary expression that was read reads forward.
pub proof fn lemma_primary_forward(cs: Seq<char>, c: Cursor)
    ensures
        forward(primary(cs, c), cs, c),
    decreases left(cs, c), 3nat,
{
    lemma_tokens_forward(cs, c);
    lemma_named_forward(cs, c);
}

/// A literal word, a variable or a form in brackets reads forward.
pub proof fn lemma_named_forward(cs: Seq<char>, c: Cursor)
    ensures
        forward(named(cs, c), cs, c),
    decreases left(cs, c), 2nat,
{
    lemma_tokens_forward(cs, c);
    lemma_bracketed_forward(cs, c);
}

/// A form in brackets reads forward.
pub proof fn lemma_bracketed_forward(cs: Seq<char>, c: Cursor)
    ensures
        forward(bracketed(cs, c), cs, c),
    decreases left(cs, c), 1nat,
{
    lemma_grouping_forward(cs, c);
    lemma_array_forward(cs, c);
    lemma_dictionary_forward(cs, c);
}

/// An expression in parentheses reads forward.
pub proof fn lemma_grouping_forward(cs: Seq<char>, c: Cursor)
    ensures
        forward(grouping(cs, c), cs, c),
    decreases left(cs, c), 0nat,
{
    lemma_tokens_forward(cs, c);
    match symbol_eq(cs, c, Symbol::LParenthesis) {
        Parsed::Hit { value: opener, next } => {
            lemma_expression_forward(cs, next);
            match expression(cs, next) {
                Parsed::Hit { value: inner, next: behind } => {
                    lemma_tokens_forward(cs, behind);
                },
                _ => {},
            }
        },
        _ => {},
    }
}

/// An array reads forward.
pub proof fn lemma_array_forward(cs: Seq<char>, c: Cursor)
    ensures
        forward(array(cs, c), cs, c),
    decreases left(cs, c), 0nat,
{
    lemma_tokens_forward(cs, c);
    match symbol_eq(cs, c, Symbol::LSquareBracket) {
        Parsed::Hit { value: opener, next } => {
            lemma_arguments_forward(cs, next, Seq::empty());
            match arguments(cs, next, Seq::empty()) {
                Parsed::Hit { value: items, next: behind } => {
                    lemma_tokens_forward(cs, behind);
                },
                _ => {},
            }
        },
        _ => {},
    }
}

/// A dictionary reads forward.
pub proof fn lemma_dictionary_forward(cs: Seq<char>, c: Cursor)
    ensures
        forward(dictionary(cs, c), cs, c),
    decreases left(cs, c), 0nat,
{
    lemma_tokens_forward(cs, c);
    match symbol_eq(cs, c, Symbol::LCurlyBracket) {
        Parsed::Hit { value: opener, next } => {
            lemma_entries_forward(cs, next, Seq::empty());
            match entries(cs, next, Seq::empty()) {
                Parsed::Hit { value: pairs, next: behind } => {
                    lemma_tokens_forward(cs, behind);
                },
                _ => {},
            }
        },
        _ => {},
    }
}

/// Entries parted by commas read forward.
pub proof fn lemma_entries_forward(
    cs: Seq<char>,
    c: Cursor,
    so_far: Seq<(Spanned<DictionaryKeyView>, Spanned<ExpressionView>)>,
)
    requires
        c.at <= cs.len(),
    ensures
        onward(entries(cs, c, so_far), cs, c),
    decreases left(cs, c), 134nat,
{
    lemma_entry_forward(cs, c);
    match entry(cs, c) {
        Parsed::Hit { value, next } => {
            lemma_tokens_forward(cs, next);
            match symbol_eq(cs, next, Symbol::Comma) {
                Parsed::Hit { value: comma, next: behind } => {
                    lemma_entries_forward(cs, behind, so_far.push(value));
                },
                _ => {},
            }
        },
        _ => {},
    }
}

/// An entry that was read moves the cursor on.
pub proof fn lemma_entry_forward(cs: Seq<char>, c: Cursor)
    requires
        c.at <= cs.len(),
    ensures
        onward(entry(cs, c), cs, c),
        entry(cs, c) matches Parsed::Hit { value, next } ==> c.at < next.at,
    decreases left(cs, c), 133nat,
{
    lemma_entry_key_forward(cs, c);
    match entry_key(cs, c) {
        Parsed::Hit { value: key, next } => {
            lemma_entry_value_forward(cs, next, key);
        },
        _ => {},
    }
}

/// The key of an entry reads forward.
pub proof fn lemma_entry_key_forward(cs: Seq<char>, c: Cursor)
    ensures
        forward(entry_key(cs, c), cs, c),
    decreases left(cs, c), 132nat,
{
    lemma_tokens_forward(cs, c);
    match symbol_eq(cs, c, Symbol::LSquareBracket) {
        Parsed::Hit { value: opener, next } => {
            lemma_expression_forward(cs, next);
            match expression(cs, next) {
                Parsed::Hit { value: key, next: behind } => {
                    lemma_tokens_forward(cs, behind);
                },
                _ => {},
            }
        },
        _ => {},
    }
}

/// The colon and the value of an entry move the cursor on.
pub proof fn lemma_entry_value_forward(cs: Seq<char>, c: Cursor, key: Spanned<DictionaryKeyView>)
    requires
        c.at <= cs.len(),
    ensures
        onward(entry_value(cs, c, key), cs, c),
        entry_value(cs, c, key) matches Parsed::Hit { value, next } ==> c.at < next.at,
    decreases left(cs, c), 132nat,
{
    lemma_tokens_forward(cs, c);
    match symbol_eq(cs, c, Symbol::Colon) {
        Parsed::Hit { value: colon, next } => {
            lemma_expression_forward(cs, next);
        },
        _ => {},
    }
}

// ---------------------------------------------------------------------------
// Statements and declarations

/// A name that a declaration binds reads forward.
pub proof fn lemma_var_name_forward(cs: Seq<char>, c: Cursor)
    ensures
        forward(var_name(cs, c), cs, c),
{
    lemma_tokens_forward(cs, c);
}

/// What the closing bracket makes of a list of names starts at the opening
/// bracket and ends behind the cursor.
pub proof fn lemma_pattern_close_forward(cs: Seq<char>, c: Cursor, read: Names)
    requires
        read.opener.start < c.at,
    ensures
        longer(pattern_close(cs, c, read), cs, c, read.opener.start),
{
    lemma_tokens_forward(cs, c);
}

/// What the rest of a list of names makes of it starts at the opening bracket
/// and ends behind the cursor.
pub proof fn lemma_pattern_names_forward(cs: Seq<char>, c: Cursor, read: Names)
    requires
        read.opener.start < c.at,
    ensures
        longer(pattern_names(cs, c, read), cs, c, read.opener.start),
    decreases left(cs, c), 1nat,
{
    lemma_tokens_forward(cs, c);
    lemma_var_name_forward(cs, c);
    lemma_pattern_close_forward(cs, c, read);
    match symbol_eq(cs, c, Symbol::Dots) {
        Parsed::Hit { value: dots, next } => {
            if !read.dotted {
                lemma_pattern_comma_forward(
                    cs,
                    next,
                    Names {
                        opener: read.opener,
                        start_names: read.start_names,
                        end_names: read.end_names,
                        dotted: true,
                        end: dots.end,
                    },
                );
            }
        },
        _ => match var_name(cs, c) {
            Parsed::Hit { value: name, next } => {
                lemma_pattern_comma_forward(
                    cs,
                    next,
                    Names {
                        opener: read.opener,
                        start_names: if read.dotted {
                            read.start_names
                        } else {
                            read.start_names.push(name)
                        },
                        end_names: if read.dotted {
                            read.end_names.push(name)
                        } else {
                            read.end_names
                        },
                        dotted: read.dotted,
                        end: name.end,
                    },
                );
            },
            _ => {},
        },
    }
}

/// What a comma and more names make of a list of names starts at the opening
/// bracket and ends behind the cursor.
pub proof fn lemma_pattern_comma_forward(cs: Seq<char>, c: Cursor, read: Names)
    requires
        read.opener.start < c.at,
    ensures
        longer(pattern_comma(cs, c, read), cs, c, read.opener.start),
    decreases left(cs, c), 0nat,
{
    lemma_tokens_forward(cs, c);
    lemma_pattern_close_forward(cs, c, read);
    match symbol_eq(cs, c, Symbol::Comma) {
        Parsed::Hit { value: comma, next } => {
            lemma_pattern_names_forward(
                cs,
                next,
                Names {
                    opener: read.opener,
                    start_names: read.start_names,
                    end_names: read.end_names,
                    dotted: read.dotted,
                    end: comma.end,
                },
            );
        },
        _ => {},
    }
}

/// A pattern that was read reads forward.
pub proof fn lemma_pattern_forward(cs: Seq<char>, c: Cursor)
    ensures
        forward(pattern(cs, c), cs, c),
{
    lemma_tokens_forward(cs, c);
    lemma_var_name_forward(cs, c);
    match symbol_eq(cs, c, Symbol::LSquareBracket) {
        Parsed::Hit { value: opener, next } => {
            lemma_pattern_names_forward(
                cs,
                next,
                Names {
                    opener,
                    start_names: Seq::empty(),
                    end_names: Seq::empty(),
                    dotted: false,
                    end: opener.end,
                },
            );
        },
        _ => {},
    }
}

/// A pattern with its value reads forward.
pub proof fn lemma_func_param_forward(cs: Seq<char>, c: Cursor)
    ensures
        forward(func_param(cs, c), cs, c),
{
    lemma_pattern_forward(cs, c);
    match pattern(cs, c) {
        Parsed::Hit { value: names, next } => {
            lemma_tokens_forward(cs, next);
            match symbol_eq(cs, next, Symbol::Assign) {
                Parsed::Hit { value: sign, next: behind } => {
                    lemma_expression_forward(cs, behind);
                },
                _ => {},
            }
        },
        _ => {},
    }
}

/// A declaration of variables reads forward.
pub proof fn lemma_var_decl_forward(cs: Seq<char>, c: Cursor)
    ensures
        forward(var_decl(cs, c), cs, c),
{
    lemma_tokens_forward(cs, c);
    match keyword_eq(cs, c, Keyword::Var) {
        Parsed::Hit { value: word, next } => {
            lemma_func_param_forward(cs, next);
        },
        _ => {},
    }
}

/// Parameters parted by commas read forward.
pub proof fn lemma_parameters_forward(cs: Seq<char>, c: Cursor, so_far: Seq<Spanned<VarDeclView>>)
    requires
        c.at <= cs.len(),
    ensures
        onward(parameters(cs, c, so_far), cs, c),
    decreases left(cs, c),
{
    lemma_func_param_forward(cs, c);
    match func_param(cs, c) {
        Parsed::Hit { value, next } => {
            lemma_tokens_forward(cs, next);
            match symbol_eq(cs, next, Symbol::Comma) {
                Parsed::Hit { value: comma, next: behind } => {
                    lemma_parameters_forward(cs, behind, so_far.push(value));
                },
                _ => {},
            }
        },
        _ => {},
    }
}

/// Statements one after the other read forward.
pub proof fn lemma_statements_forward(
    cs: Seq<char>,
    c: Cursor,
    so_far: Seq<Spanned<StatementView>>,
)
    requires
        c.at <= cs.len(),
    ensures
        onward(statements(cs, c, so_far), cs, c),
    decreases left(cs, c), 8nat,
{
    lemma_skip(cs, c.at);
    lemma_terminated_forward(cs, c);
    match terminated(cs, c) {
        Parsed::Hit { value, next } => {
            lemma_statements_forward(cs, next, so_far.push(value));
        },
        _ => {},
    }
}

/// A statement with its semicolon reads forward.
pub proof fn lemma_terminated_forward(cs: Seq<char>, c: Cursor)
    ensures
        forward(terminated(cs, c), cs, c),
    decreases left(cs, c), 7nat,
{
    lemma_statement_forward(cs, c);
    match statement(cs, c) {
        Parsed::Hit { value, next } => {
            lemma_tokens_forward(cs, next);
        },
        _ => {},
    }
}

/// A statement that was read reads forward.
pub proof fn lemma_statement_forward(cs: Seq<char>, c: Cursor)
    ensures
        forward(statement(cs, c), cs, c),
    decreases left(cs, c), 6nat,
{
    lemma_declaration_forward(cs, c);
    lemma_branching_forward(cs, c);
}

/// A statement that is no declaration reads forward.
pub proof fn lemma_branching_forward(cs: Seq<char>, c: Cursor)
    ensures
        forward(branching(cs, c), cs, c),
    decreases left(cs, c), 5nat,
{
    lemma_if_forward(cs, c);
    lemma_while_forward(cs, c);
    lemma_plain_forward(cs, c);
}

/// A block or an expression as a statement reads forward.
pub proof fn lemma_plain_forward(cs: Seq<char>, c: Cursor)
    ensures
        forward(plain(cs, c), cs, c),
    decreases left(cs, c), 1nat,
{
    lemma_block_forward(cs, c);
    lemma_expression_forward(cs, c);
}

/// A block that was read reads forward.
pub proof fn lemma_block_forward(cs: Seq<char>, c: Cursor)
    ensures
        forward(block(cs, c), cs, c),
    decreases left(cs, c), 0nat,
{
    lemma_tokens_forward(cs, c);
    match symbol_eq(cs, c, Symbol::LCurlyBracket) {
        Parsed::Hit { value: opener, next } => {
            lemma_statements_forward(cs, next, Seq::empty());
            match statements(cs, next, Seq::empty()) {
                Parsed::Hit { value: inner, next: behind } => {
                    lemma_tokens_forward(cs, behind);
                },
                _ => {},
            }
        },
        _ => {},
    }
}

/// A declaration that was read reads forward.
pub proof fn lemma_declaration_forward(cs: Seq<char>, c: Cursor)
    ensures
        forward(declaration(cs, c), cs, c),
    decreases left(cs, c), 3nat,
{
    lemma_var_decl_forward(cs, c);
    lemma_func_decl_forward(cs, c);
}

/// A declaration of a function reads forward.
pub proof fn lemma_func_decl_forward(cs: Seq<char>, c: Cursor)
    ensures
        forward(func_decl(cs, c), cs, c),
    decreases left(cs, c), 2nat,
{
    lemma_tokens_forward(cs, c);
    match keyword_eq(cs, c, Keyword::Func) {
        Parsed::Hit { value: word, next } => {
            lemma_tokens_forward(cs, next);
            match ident(cs, next) {
                Parsed::Hit { value: name, next: behind } => {
                    lemma_parenthesized_forward(cs, behind, word, name);
                    match parenthesized(cs, behind, word, name) {
                        Parsed::Hit { value: (params, closing), next: body } => {
                            lemma_func_block_forward(cs, body, word, closing);
                        },
                        _ => {},
                    }
                },
                _ => {},
            }
        },
        _ => {},
    }
}

/// Parameters in their parentheses move the cursor on.
pub proof fn lemma_parenthesized_forward(
    cs: Seq<char>,
    c: Cursor,
    word: Spanned<Keyword>,
    name: Spanned<StringName>,
)
    requires
        c.at <= cs.len(),
    ensures
        onward(parenthesized(cs, c, word, name), cs, c),
{
    lemma_tokens_forward(cs, c);
    match symbol_eq(cs, c, Symbol::LParenthesis) {
        Parsed::Hit { value: opener, next: inside } => {
            lemma_parameters_forward(cs, inside, Seq::empty());
            match parameters(cs, inside, Seq::empty()) {
                Parsed::Hit { value: params, next: after } => {
                    lemma_tokens_forward(cs, after);
                },
                _ => {},
            }
        },
        _ => {},
    }
}

/// What a function does reads forward.
pub proof fn lemma_func_block_forward(
    cs: Seq<char>,
    c: Cursor,
    word: Spanned<Keyword>,
    closing: Spanned<Symbol>,
)
    ensures
        forward(func_block(cs, c, word, closing), cs, c),
    decreases left(cs, c), 1nat,
{
    lemma_block_forward(cs, c);
    lemma_tokens_forward(cs, c);
    match symbol_eq(cs, c, Symbol::RightArrow) {
        Parsed::Hit { value: arrow, next } => {
            lemma_expression_forward(cs, next);
        },
        _ => {},
    }
}

/// A condition and its block move the cursor on; the block ends where the
/// cursor stands.
pub proof fn lemma_guarded_forward(cs: Seq<char>, c: Cursor, word: Spanned<Keyword>)
    requires
        c.at <= cs.len(),
    ensures
        guarded(cs, c, word) matches Parsed::Hit { value, next } ==> {
            &&& c.at < next.at <= cs.len()
            &&& value.1.end == next.at
        },
    decreases left(cs, c), 1nat,
{
    lemma_expression_forward(cs, c);
    match expression(cs, c) {
        Parsed::Hit { value: condition, next } => {
            lemma_block_forward(cs, next);
        },
        _ => {},
    }
}

/// A keyword and its block read forward.
pub proof fn lemma_hook_forward(cs: Seq<char>, c: Cursor, word: Keyword)
    ensures
        forward(hook(cs, c, word), cs, c),
    decreases left(cs, c), 1nat,
{
    lemma_tokens_forward(cs, c);
    match keyword_eq(cs, c, word) {
        Parsed::Hit { value: found, next } => {
            lemma_block_forward(cs, next);
        },
        _ => {},
    }
}

/// What follows the block of an `if` moves the cursor on: it ends where the
/// cursor stands, and where nothing follows, the cursor stays.
pub proof fn lemma_else_chain_forward(cs: Seq<char>, c: Cursor)
    requires
        c.at <= cs.len(),
    ensures
        else_chain(cs, c) matches Parsed::Hit { value, next } ==> {
            &&& c.at <= next.at <= cs.len()
            &&& match value {
                Some(found) => c.at <= found.start < found.end == next.at,
                None => next.at == c.at,
            }
        },
    decreases left(cs, c), 2nat,
{
    lemma_tokens_forward(cs, c);
    lemma_hook_forward(cs, c, Keyword::Else);
    match keyword_eq(cs, c, Keyword::Elif) {
        Parsed::Hit { value: word, next } => {
            lemma_guarded_forward(cs, next, word);
            match guarded(cs, next, word) {
                Parsed::Hit { value: (condition, body), next: behind } => {
                    lemma_else_chain_forward(cs, behind);
                },
                _ => {},
            }
        },
        _ => {},
    }
}

/// An `if` that was read reads forward.
pub proof fn lemma_if_forward(cs: Seq<char>, c: Cursor)
    ensures
        forward(if_statement(cs, c), cs, c),
    decreases left(cs, c), 2nat,
{
    lemma_tokens_forward(cs, c);
    match keyword_eq(cs, c, Keyword::If) {
        Parsed::Hit { value: word, next } => {
            lemma_guarded_forward(cs, next, word);
            match guarded(cs, next, word) {
                Parsed::Hit { value: (condition, body), next: behind } => {
                    lemma_else_chain_forward(cs, behind);
                },
                _ => {},
            }
        },
        _ => {},
    }
}

/// The hook behind a first one moves the cursor on; the last hook ends where
/// the cursor stands.
pub proof fn lemma_second_hook_forward(
    cs: Seq<char>,
    c: Cursor,
    first: Spanned<BlockView>,
    first_is_break: bool,
)
    requires
        first.end == c.at <= cs.len(),
    ensures
        second_hook(cs, c, first, first_is_break) matches Parsed::Hit { value, next } ==> c.at
            <= next.at <= cs.len() && value.end == next.at,
    decreases left(cs, c), 2nat,
{
    lemma_hook_forward(
        cs,
        c,
        if first_is_break {
            Keyword::OnContinue
        } else {
            Keyword::OnBreak
        },
    );
}

/// The hooks of a `while` move the cursor on; the last of them ends where the
/// cursor stands.
pub proof fn lemma_while_hooks_forward(cs: Seq<char>, c: Cursor, end: nat)
    requires
        end == c.at <= cs.len(),
    ensures
        while_hooks(cs, c, end) matches Parsed::Hit { value, next } ==> c.at <= next.at
            <= cs.len() && value.end == next.at,
    decreases left(cs, c), 3nat,
{
    lemma_hook_forward(cs, c, Keyword::OnBreak);
    lemma_hook_forward(cs, c, Keyword::OnContinue);
    match hook(cs, c, Keyword::OnBreak) {
        Parsed::Hit { value: first, next } => {
            lemma_second_hook_forward(cs, next, first, true);
        },
        Parsed::Miss => match hook(cs, c, Keyword::OnContinue) {
            Parsed::Hit { value: first, next } => {
                lemma_second_hook_forward(cs, next, first, false);
            },
            _ => {},
        },
        _ => {},
    }
}

/// A `while` that was read reads forward.
pub proof fn lemma_while_forward(cs: Seq<char>, c: Cursor)
    ensures
        forward(while_statement(cs, c), cs, c),
    decreases left(cs, c), 4nat,
{
    lemma_tokens_forward(cs, c);
    match keyword_eq(cs, c, Keyword::While) {
        Parsed::Hit { value: word, next } => {
            lemma_guarded_forward(cs, next, word);
            match guarded(cs, next, word) {
                Parsed::Hit { value: (condition, body), next: behind } => {
                    lemma_while_hooks_forward(cs, behind, body.end);
                },
                _ => {},
            }
        },
        _ => {},
    }
}

/// The grammar reads forward. An expression, a statement or a declaration
/// that was read from a cursor on starts at or behind that cursor, is not
/// empty, lies in the text and ends where the next cursor stands; a list of
/// statements, and a program, leave the cursor at or behind where it stood.
/// So the cursor behind a piece never has to be kept from moving back, and
/// every statement moves it on.
pub proof fn law_reads_forward(cs: Seq<char>, c: Cursor)
    requires
        c.at <= cs.len(),
    ensures
        forward(expression(cs, c), cs, c),
        forward(statement(cs, c), cs, c),
        forward(terminated(cs, c), cs, c),
        forward(declaration(cs, c), cs, c),
        forward(block(cs, c), cs, c),
        onward(statements(cs, c, Seq::empty()), cs, c),
        onward(program(cs, c), cs, c),
        expression(cs, c) matches Parsed::Hit { value, next } ==> next.after(c) == next,
        terminated(cs, c) matches Parsed::Hit { value, next } ==> moved(cs, c, next),
{
    lemma_expression_forward(cs, c);
    lemma_statement_forward(cs, c);
    lemma_terminated_forward(cs, c);
    lemma_declaration_forward(cs, c);
    lemma_block_forward(cs, c);
    lemma_statements_forward(cs, c, Seq::empty());
    match statements(cs, c, Seq::empty()) {
        Parsed::Hit { value, next } => {
            lemma_skip(cs, next.at);
        },
        _ => {},
    }
}

} // verus!
