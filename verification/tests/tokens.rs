use script_parser::parser::error::ErrorType;
use script_parser::parser::parse_node::{
    IdentKeyword, Keyword, Number, ParseNode, RealLiteral, Symbol,
};
use script_parser::parser::Parser;
use script_parser::source::SourceIter;
use script_parser::string_name::StringName;

fn literal(
    integer: u64,
    fraction: u64,
    fraction_digits: usize,
    exponent_negative: bool,
    exponent: u64,
) -> Number {
    Number::Real(RealLiteral { integer, fraction, fraction_digits, exponent_negative, exponent })
}

#[test]
fn source_yields_offsets_and_unifies_line_endings() {
    let mut iter = SourceIter::new("a\r\nb\rc\n");
    let mut seen = Vec::new();
    while let Some(item) = iter.next() {
        seen.push(item);
    }
    assert_eq!(seen, vec![(0, 'a'), (1, '\n'), (3, 'b'), (4, '\n'), (5, 'c'), (6, '\n')]);
    assert_eq!(iter.byte_len(), 7);
}

#[test]
fn source_counts_bytes_of_wide_characters() {
    let mut iter = SourceIter::new("\u{e9}\u{4e2d}\u{1f600}x");
    let mut seen = Vec::new();
    while let Some(item) = iter.next() {
        seen.push(item);
    }
    assert_eq!(seen, vec![(0, '\u{e9}'), (2, '\u{4e2d}'), (5, '\u{1f600}'), (9, 'x')]);
    assert_eq!(iter.byte_len(), 10);
    assert_eq!(iter.end_of(3), 9);
    assert_eq!(iter.start_of(4), 10);
}

#[test]
fn source_position_can_be_put_back() {
    let mut iter = SourceIter::new("abc");
    assert_eq!(iter.next(), Some((0, 'a')));
    let saved = iter.position();
    assert_eq!(iter.next(), Some((1, 'b')));
    assert_eq!(iter.peek(), Some((2, 'c')));
    iter.seek(saved);
    assert_eq!(iter.next(), Some((1, 'b')));
    assert_eq!(iter.next(), Some((2, 'c')));
    assert_eq!(iter.next(), None);
    assert_eq!(iter.next(), None);
}

#[test]
fn skip_passes_white_space_and_comments() {
    let mut parser = Parser::new("  // one\n /* two\n lines */ x");
    parser.skip();
    assert_eq!(parser.iter.position(), 27);
    let name = parser.ident().unwrap();
    assert_eq!(name.range, 27..28);
}

#[test]
fn skip_takes_an_open_block_comment_to_the_end() {
    let mut parser = Parser::new("/* never closed * /");
    parser.skip();
    assert_eq!(parser.iter.position(), 19);
    assert_eq!(parser.parse().unwrap().len(), 0);
}

#[test]
fn skip_stops_at_a_single_slash() {
    let mut parser = Parser::new(" / 2");
    parser.skip();
    assert_eq!(parser.iter.position(), 1);
    assert_eq!(parser.symbol(), Some(ParseNode::new(1..2, Symbol::Div)));
}

#[test]
fn symbol_and_word_stay_behind_the_trivia_where_they_find_nothing() {
    let mut parser = Parser::new("  // note\n  x + 1");
    assert_eq!(parser.symbol(), None);
    assert_eq!(parser.iter.position(), 12);
    parser.iter.seek(0);
    assert_eq!(parser.symbol_eq(Symbol::Add), None);
    assert_eq!(parser.iter.position(), 0);
    assert_eq!(parser.symbol_if(|_| true), None);
    assert_eq!(parser.iter.position(), 0);
    let mut word = Parser::new(" /* a */ + b");
    assert_eq!(word.ident_or_keyword(), None);
    assert_eq!(word.iter.position(), 9);
    word.iter.seek(0);
    assert_eq!(word.ident(), None);
    assert_eq!(word.keyword(), None);
    assert_eq!(word.ident_if(|_| true), None);
    assert_eq!(word.keyword_if(|_| true), None);
    assert_eq!(word.keyword_eq(Keyword::If), None);
    assert_eq!(word.iter.position(), 0);
    assert_eq!(word.interner.len(), 0);
    let mut end = Parser::new("   ");
    assert_eq!(end.symbol(), None);
    assert_eq!(end.iter.position(), 3);
}

#[test]
fn words_are_keywords_or_identifiers() {
    let mut parser = Parser::new("while whilex _a1 oncontinue");
    assert_eq!(
        parser.ident_or_keyword(),
        Some(ParseNode::new(0..5, IdentKeyword::Keyword(Keyword::While)))
    );
    assert_eq!(
        parser.ident_or_keyword(),
        Some(ParseNode::new(6..12, IdentKeyword::Ident(StringName(0))))
    );
    assert_eq!(
        parser.ident_or_keyword(),
        Some(ParseNode::new(13..16, IdentKeyword::Ident(StringName(1))))
    );
    assert_eq!(
        parser.ident_or_keyword(),
        Some(ParseNode::new(17..27, IdentKeyword::Keyword(Keyword::OnContinue)))
    );
    assert_eq!(parser.ident_or_keyword(), None);
    assert_eq!(parser.interner.text_of(StringName(0)), Some("whilex"));
    assert_eq!(parser.interner.text_of(StringName(1)), Some("_a1"));
}

#[test]
fn ident_leaves_a_keyword_unread() {
    let mut parser = Parser::new("  if x");
    assert_eq!(parser.ident(), None);
    assert_eq!(parser.iter.position(), 0);
    assert_eq!(parser.interner.len(), 0);
    assert_eq!(parser.keyword(), Some(ParseNode::new(2..4, Keyword::If)));
    assert_eq!(parser.keyword(), None);
    assert_eq!(parser.iter.position(), 4);
    assert_eq!(parser.interner.len(), 0);
    assert_eq!(parser.ident(), Some(ParseNode::new(5..6, StringName(0))));
}

#[test]
fn keyword_eq_takes_only_the_keyword_asked_for() {
    let mut parser = Parser::new("elif else");
    assert_eq!(parser.keyword_eq(Keyword::Else), None);
    assert_eq!(parser.iter.position(), 0);
    assert_eq!(parser.keyword_eq(Keyword::Elif), Some(ParseNode::new(0..4, Keyword::Elif)));
    assert_eq!(parser.keyword_if(|k| k == Keyword::If), None);
    assert_eq!(
        parser.keyword_if(|k| k == Keyword::Else),
        Some(ParseNode::new(5..9, Keyword::Else))
    );
}

#[test]
fn ident_eq_and_ident_if_choose_by_name() {
    let mut parser = Parser::new("a b a c");
    let a = parser.ident().unwrap().data;
    assert_eq!(parser.ident_eq(a), None);
    let b = parser.ident().unwrap().data;
    assert_ne!(a, b);
    assert_eq!(parser.ident_if(|name| name == b), None);
    assert_eq!(parser.ident_eq(a), Some(ParseNode::new(4..5, a)));
    assert_eq!(parser.ident_if(|name| name == StringName(2)), Some(ParseNode::new(6..7, StringName(2))));
    assert_eq!(parser.interner.len(), 3);
}

#[test]
fn symbol_takes_the_longest_match() {
    let mut parser = Parser::new("** * -> - ... .. <- << <= < == = != !");
    let expected = [
        (0..2, Symbol::Pow),
        (3..4, Symbol::Mul),
        (5..7, Symbol::RightArrow),
        (8..9, Symbol::Sub),
        (10..13, Symbol::Dots),
        (14..15, Symbol::Dot),
        (15..16, Symbol::Dot),
        (17..19, Symbol::LeftArrow),
        (20..22, Symbol::LeftShift),
        (23..25, Symbol::LessEq),
        (26..27, Symbol::Less),
        (28..30, Symbol::Eq),
        (31..32, Symbol::Assign),
        (33..35, Symbol::NotEq),
        (36..37, Symbol::Not),
    ];
    for (range, symbol) in expected {
        assert_eq!(parser.symbol(), Some(ParseNode::new(range, symbol)));
    }
    assert_eq!(parser.symbol(), None);
}

#[test]
fn symbol_eq_and_symbol_if_put_back_what_they_refuse() {
    let mut parser = Parser::new(" +x ");
    assert_eq!(parser.symbol_eq(Symbol::Sub), None);
    assert_eq!(parser.iter.position(), 0);
    assert_eq!(parser.symbol_if(|s| s == Symbol::Mul), None);
    assert_eq!(parser.iter.position(), 0);
    assert_eq!(parser.symbol_if(|s| s == Symbol::Add), Some(ParseNode::new(1..2, Symbol::Add)));
    assert_eq!(parser.symbol(), None);
    assert_eq!(parser.iter.position(), 2);
    assert_eq!(parser.ident().map(|name| name.range), Some(2..3));
    assert_eq!(parser.ident(), None);
    assert_eq!(parser.iter.position(), 3);
    assert_eq!(parser.number(), Ok(None));
    assert_eq!(parser.iter.position(), 4);
    parser.iter.seek(3);
    assert_eq!(parser.string(), Ok(None));
    assert_eq!(parser.iter.position(), 4);
    parser.iter.seek(3);
    assert_eq!(parser.char(), Ok(None));
    assert_eq!(parser.iter.position(), 4);
}

#[test]
fn numbers_in_every_form() {
    let cases: Vec<(&str, std::ops::Range<usize>, Number)> = vec![
        ("42", 0..2, Number::Int(42)),
        ("  7;", 2..3, Number::Int(7)),
        ("0x1F", 0..4, Number::Int(31)),
        ("0Xff", 0..4, Number::Int(255)),
        ("0b101", 0..5, Number::Int(5)),
        ("0o17", 0..4, Number::Int(15)),
        ("xb11", 0..4, Number::Int(3)),
        ("0xg", 0..1, Number::Int(0)),
        ("18446744073709551615", 0..20, Number::Int(u64::MAX)),
        ("1.5", 0..3, literal(1, 5, 1, false, 0)),
        ("3.0625", 0..6, literal(3, 625, 4, false, 0)),
        ("1.", 0..2, literal(1, 0, 0, false, 0)),
        ("2e3", 0..3, literal(2, 0, 0, false, 3)),
        ("2E+3", 0..4, literal(2, 0, 0, false, 3)),
        ("1.25e-2", 0..7, literal(1, 25, 2, true, 2)),
        ("12 e3", 0..2, Number::Int(12)),
    ];
    for (text, range, number) in cases {
        let mut parser = Parser::new(text);
        assert_eq!(parser.number(), Ok(Some(ParseNode::new(range, number))), "{}", text);
    }
}

#[test]
fn number_finds_nothing_where_none_stands() {
    for (text, behind) in
        [("", 0), ("x", 0), (".5", 0), ("-1", 0), ("ab", 0), ("foo", 0), ("  x", 2), (" // 1\n", 6)]
    {
        let mut parser = Parser::new(text);
        assert_eq!(parser.number(), Ok(None), "{}", text);
        assert_eq!(parser.iter.position(), behind, "{}", text);
    }
}

#[test]
fn number_errors() {
    let cases = [
        ("18446744073709551616", 0..20, ErrorType::IntOverflow),
        ("0x10000000000000000", 2..19, ErrorType::IntOverflow),
        ("1.99999999999999999999", 2..22, ErrorType::IntOverflow),
        ("1e", 0..2, ErrorType::ExpectedInteger),
        ("1e+", 0..3, ErrorType::ExpectedInteger),
        ("1.5e-x", 0..5, ErrorType::ExpectedInteger),
    ];
    for (text, range, error) in cases {
        let mut parser = Parser::new(text);
        let found = parser.number().unwrap_err();
        assert_eq!(found.error, error, "{}", text);
        assert_eq!(found.range, range, "{}", text);
    }
}

#[test]
fn integer_and_radix_read_where_the_parser_stands() {
    let mut parser = Parser::new("0b102");
    assert_eq!(parser.radix(), Some(ParseNode::new(0..2, 2)));
    assert_eq!(parser.integer(2), Ok(Some(ParseNode::new(2..4, 2))));
    assert_eq!(parser.integer(2), Ok(None));
    assert_eq!(parser.integer(10), Ok(Some(ParseNode::new(4..5, 2))));
    let mut spaced = Parser::new(" 1");
    assert_eq!(spaced.integer(10), Ok(None));
    assert_eq!(spaced.radix(), None);
    assert_eq!(spaced.iter.position(), 0);
}

#[test]
fn strings_with_escapes() {
    let cases: Vec<(&str, std::ops::Range<usize>, &str)> = vec![
        ("\"\"", 0..2, ""),
        ("\"abc\"", 0..5, "abc"),
        (" \"a b\" ", 1..6, "a b"),
        ("\"a\\nb\\t\\r\\0\\\\\\'\\\"\"", 0..18, "a\nb\t\r\0\\'\""),
        ("\"\\x41\\x7a\"", 0..10, "Az"),
        ("\"\\u{41}\\u{e9}\\u{4e2d}\"", 0..22, "A\u{e9}\u{4e2d}"),
        ("\"\u{e9}\"", 0..4, "\u{e9}"),
        ("\"a\r\nb\"", 0..6, "a\nb"),
    ];
    for (text, range, value) in cases {
        let mut parser = Parser::new(text);
        assert_eq!(
            parser.string(),
            Ok(Some(ParseNode::new(range, value.to_string()))),
            "{}",
            text
        );
    }
}

#[test]
fn raw_strings_close_with_as_many_parentheses_as_they_opened() {
    let cases: Vec<(&str, std::ops::Range<usize>, &str)> = vec![
        ("r\"a\\n\"", 0..6, "a\\n"),
        ("r(\"a\"b\")", 0..8, "a\"b"),
        ("r((\"a)\"x\")\"))", 0..13, "a)\"x\")"),
        ("r(\"a\"))", 0..6, "a"),
    ];
    for (text, range, value) in cases {
        let mut parser = Parser::new(text);
        assert_eq!(
            parser.string(),
            Ok(Some(ParseNode::new(range, value.to_string()))),
            "{}",
            text
        );
    }
}

#[test]
fn raw_string_with_too_few_closing_parentheses_is_incomplete() {
    for text in ["r((\"a\")", "r(\"a\"", "r(((\"a\"))"] {
        let mut parser = Parser::new(text);
        let found = parser.string().unwrap_err();
        assert_eq!(found.error, ErrorType::IncompleteString, "{}", text);
        assert_eq!(found.range, 0..text.len(), "{}", text);
    }
}

#[test]
fn string_finds_nothing_where_none_stands() {
    for (text, behind) in
        [("", 0), ("x", 0), ("'a'", 0), ("r", 0), ("r(x", 0), ("rate", 0), ("  r((", 2), ("\n1", 1)]
    {
        let mut parser = Parser::new(text);
        assert_eq!(parser.string(), Ok(None), "{}", text);
        assert_eq!(parser.iter.position(), behind, "{}", text);
    }
}

#[test]
fn string_errors() {
    let cases = [
        ("\"abc", 0..4, ErrorType::IncompleteString),
        ("\"", 0..1, ErrorType::IncompleteString),
        ("\"ab\\", 0..4, ErrorType::IncompleteEscape),
        ("\"a\\qb\"", 0..4, ErrorType::InvalidEscape),
        ("\"\\x4\"", 0..4, ErrorType::IncompleteCharCode),
        ("\"\\xg1\"", 0..3, ErrorType::IncompleteCharCode),
        ("\"\\u41\"", 0..3, ErrorType::ExpectedLCurly),
        ("\"\\u{41\"", 0..6, ErrorType::ExpectedRCurly),
        ("\"\\u{12345}\"", 0..8, ErrorType::ExpectedRCurly),
        ("\"\\u{}\"", 0..5, ErrorType::InvalidCharCode),
        ("\"\\u{g}\"", 0..4, ErrorType::ExpectedRCurly),
        ("\"\\u{D800}\"", 0..9, ErrorType::InvalidCharCode),
    ];
    for (text, range, error) in cases {
        let mut parser = Parser::new(text);
        let found = parser.string().unwrap_err();
        assert_eq!(found.error, error, "{}", text);
        assert_eq!(found.range, range, "{}", text);
    }
}

#[test]
fn characters() {
    let cases = [
        ("'a'", 0..3, 'a'),
        (" '\\n'", 1..5, '\n'),
        ("'\\''", 0..4, '\''),
        ("'\"'", 0..3, '"'),
        ("'\\x41'", 0..6, 'A'),
        ("'\\u{4e2d}'", 0..10, '\u{4e2d}'),
        ("'\u{1f600}'", 0..6, '\u{1f600}'),
    ];
    for (text, range, value) in cases {
        let mut parser = Parser::new(text);
        assert_eq!(parser.char(), Ok(Some(ParseNode::new(range, value))), "{}", text);
    }
    let mut none = Parser::new("\"a\"");
    assert_eq!(none.char(), Ok(None));
}

#[test]
fn character_errors() {
    let cases = [
        ("''", 0..2, ErrorType::EmptyChar),
        ("'ab'", 0..4, ErrorType::TooManyChars),
        ("'a", 0..2, ErrorType::IncompleteChar),
        ("'", 0..1, ErrorType::IncompleteChar),
        ("'\\q'", 0..3, ErrorType::InvalidEscape),
    ];
    for (text, range, error) in cases {
        let mut parser = Parser::new(text);
        let found = parser.char().unwrap_err();
        assert_eq!(found.error, error, "{}", text);
        assert_eq!(found.range, range, "{}", text);
    }
}

#[test]
fn parse_string_reads_a_body_that_starts_where_the_literal_starts() {
    let mut parser = Parser::new("a\\\"b\"");
    let found = parser.parse_string(0, '"', None, ErrorType::IncompleteString).unwrap();
    assert_eq!(found, ParseNode::new(0..5, "a\"b".to_string()));
    assert_eq!(parser.iter.position(), 5);
    let mut open = Parser::new("");
    let error = open.parse_string(0, '"', None, ErrorType::IncompleteString).unwrap_err();
    assert_eq!(error.error, ErrorType::IncompleteString);
    assert_eq!(error.range, 0..0);
}

#[test]
fn parse_string_keeps_a_raw_body_as_it_stands() {
    let mut parser = Parser::new("a\\n\"x\")\"))rest");
    let found = parser.parse_string(0, '"', Some(2), ErrorType::IncompleteString).unwrap();
    assert_eq!(found, ParseNode::new(0..10, "a\\n\"x\")".to_string()));
    assert_eq!(parser.iter.position(), 10);
    let mut open = Parser::new("a\\q\")");
    let error = open.parse_string(0, '"', Some(2), ErrorType::IncompleteString).unwrap_err();
    assert_eq!(error.error, ErrorType::IncompleteString);
    assert_eq!(error.range, 0..5);
}

#[test]
fn parse_string_reads_the_body_of_a_literal() {
    let mut parser = Parser::new("<a\\tb> rest");
    parser.iter.seek(1);
    let found = parser.parse_string(0, '>', None, ErrorType::IncompleteString).unwrap();
    assert_eq!(found, ParseNode::new(0..6, "a\tb".to_string()));
    assert_eq!(parser.iter.position(), 6);
}

#[test]
fn tables_of_keywords_and_symbols() {
    assert_eq!(Keyword::try_from("var"), Ok(Keyword::Var));
    assert_eq!(Keyword::try_from("none"), Ok(Keyword::Nothing));
    assert_eq!(Keyword::try_from("onbreak"), Ok(Keyword::OnBreak));
    assert_eq!(Keyword::try_from("let"), Err(()));
    assert_eq!(Keyword::try_from("Var"), Err(()));
    assert_eq!(Keyword::try_from(""), Err(()));
    assert_eq!(Symbol::try_from("**"), Ok(Symbol::Pow));
    assert_eq!(Symbol::try_from("..."), Ok(Symbol::Dots));
    assert_eq!(Symbol::try_from(">="), Ok(Symbol::GreaterEq));
    assert_eq!(Symbol::try_from(".."), Err(()));
    assert_eq!(Symbol::try_from("+="), Err(()));
    assert_eq!(Symbol::try_from(""), Err(()));
}

#[test]
fn nodes_keep_their_range() {
    let node = ParseNode::new(3..8, 5u64);
    assert_eq!(node.start(), 3);
    assert_eq!(node.end(), 8);
    let doubled = node.convert(|n| n * 2);
    assert_eq!(doubled, ParseNode::new(3..8, 10u64));
    assert_eq!(doubled.replace("x"), ParseNode::new(3..8, "x"));
}
