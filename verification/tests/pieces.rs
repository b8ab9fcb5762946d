use script_parser::parser::chars::{radix_letter, to_digit};
use script_parser::parser::error::{Error, ErrorType};
use script_parser::parser::parse_node::{
    chars_of, spells, Block, Declaration, DictionaryKey, ElseBlock, Expression, Keyword, Number,
    ParseNode, RealLiteral, Statement, Symbol, SymbolKeyword, VarDecl, VarNameType,
};
use script_parser::parser::Parser;
use script_parser::source::char_width;
use script_parser::string_name::StringName;

fn number(range: std::ops::Range<usize>, value: u64) -> ParseNode<Expression> {
    ParseNode::new(range, Expression::Int(value))
}

#[test]
fn characters_take_one_to_four_bytes() {
    assert_eq!(char_width('a'), 1);
    assert_eq!(char_width('\u{7f}'), 1);
    assert_eq!(char_width('\u{80}'), 2);
    assert_eq!(char_width('\u{7ff}'), 2);
    assert_eq!(char_width('\u{800}'), 3);
    assert_eq!(char_width('\u{ffff}'), 3);
    assert_eq!(char_width('\u{10000}'), 4);
    assert_eq!(char_width('\u{10ffff}'), 4);
}

#[test]
fn digits_of_a_radix() {
    assert_eq!(to_digit('0', 2), Some(0));
    assert_eq!(to_digit('1', 2), Some(1));
    assert_eq!(to_digit('2', 2), None);
    assert_eq!(to_digit('7', 8), Some(7));
    assert_eq!(to_digit('8', 8), None);
    assert_eq!(to_digit('9', 10), Some(9));
    assert_eq!(to_digit('a', 10), None);
    assert_eq!(to_digit('a', 16), Some(10));
    assert_eq!(to_digit('F', 16), Some(15));
    assert_eq!(to_digit('g', 16), None);
    assert_eq!(to_digit('z', 36), Some(35));
    assert_eq!(to_digit('/', 36), None);
    assert_eq!(to_digit(':', 36), None);
    assert_eq!(to_digit('\u{e9}', 36), None);
    assert_eq!(radix_letter('b'), Some(2));
    assert_eq!(radix_letter('O'), Some(8));
    assert_eq!(radix_letter('x'), Some(16));
    assert_eq!(radix_letter('d'), None);
}

#[test]
fn texts_as_characters() {
    assert_eq!(chars_of("a\u{e9}b"), vec!['a', '\u{e9}', 'b']);
    assert_eq!(chars_of(""), Vec::<char>::new());
    assert!(spells(&vec!['i', 'f'], "if"));
    assert!(!spells(&vec!['i', 'f'], "of"));
    assert!(!spells(&vec!['i', 'f'], "iff"));
    assert!(!spells(&vec!['i', 'f'], "i"));
    assert!(spells(&vec![], ""));
}

#[test]
fn spans_of_runs_of_characters() {
    let parser = Parser::new("a\u{e9}\r\nb");
    assert_eq!(parser.len(), 4);
    assert_eq!(parser.span(0, 1), 0..1);
    assert_eq!(parser.span(1, 2), 1..3);
    assert_eq!(parser.span(2, 3), 3..4);
    assert_eq!(parser.span(3, 4), 5..6);
    assert_eq!(parser.span(0, 4), 0..6);
    assert!(parser.is_discard(0, 0) == false);
    let discard = Parser::new("_ __");
    assert!(discard.is_discard(0, 1));
    assert!(!discard.is_discard(2, 4));
    assert!(!discard.is_discard(1, 2));
}

#[test]
fn decimal_and_scientific_read_where_the_parser_stands() {
    let mut parser = Parser::new("12.5e2 7");
    assert_eq!(
        parser.decimal(),
        Ok(Some(ParseNode::new(
            0..4,
            Number::Real(RealLiteral {
                integer: 12,
                fraction: 5,
                fraction_digits: 1,
                exponent_negative: false,
                exponent: 0,
            })
        )))
    );
    parser.iter.seek(0);
    assert_eq!(
        parser.scientific(),
        Ok(Some(ParseNode::new(
            0..6,
            Number::Real(RealLiteral {
                integer: 12,
                fraction: 5,
                fraction_digits: 1,
                exponent_negative: false,
                exponent: 2,
            })
        )))
    );
    assert_eq!(parser.scientific(), Ok(None));
    assert_eq!(parser.decimal(), Ok(None));
    assert_eq!(parser.iter.position(), 6);
}

#[test]
fn each_level_reads_its_own_operators() {
    let cases: Vec<(&str, fn(&mut Parser) -> Result<Option<ParseNode<Expression>>, Error>, SymbolKeyword)> = vec![
        ("1 or 2", Parser::logical_or, SymbolKeyword::Keyword(Keyword::Or)),
        ("1 and 2", Parser::logical_and, SymbolKeyword::Keyword(Keyword::And)),
        ("1 | 2", Parser::bitwise_or, SymbolKeyword::Symbol(Symbol::Or)),
        ("1 ^ 2", Parser::bitwise_xor, SymbolKeyword::Symbol(Symbol::Xor)),
        ("1 & 2", Parser::bitwise_and, SymbolKeyword::Symbol(Symbol::And)),
        ("1 == 2", Parser::equality, SymbolKeyword::Symbol(Symbol::Eq)),
        ("1 >= 2", Parser::comparison, SymbolKeyword::Symbol(Symbol::GreaterEq)),
        ("1 << 2", Parser::bit_shift, SymbolKeyword::Symbol(Symbol::LeftShift)),
        ("1 - 2", Parser::addition, SymbolKeyword::Symbol(Symbol::Sub)),
        ("1 % 2", Parser::multiplication, SymbolKeyword::Symbol(Symbol::Mod)),
        ("1 ** 2", Parser::power, SymbolKeyword::Symbol(Symbol::Pow)),
    ];
    for (text, level, operator) in cases {
        let mut parser = Parser::new(text);
        let found = level(&mut parser).unwrap().unwrap();
        assert_eq!(found.range, 0..text.len(), "{}", text);
        let Expression::Binary(joined) = found.data else {
            panic!("no operator read in {}", text);
        };
        assert_eq!(joined.operator, operator, "{}", text);
    }
}

#[test]
fn a_level_leaves_looser_operators_unread() {
    let mut parser = Parser::new("1 * 2 + 3");
    let found = parser.multiplication().unwrap().unwrap();
    assert_eq!(found.range, 0..5);
    assert_eq!(parser.iter.position(), 5);
    assert_eq!(parser.operator_of(1), None);
    assert_eq!(
        parser.operator_of(2),
        Some(ParseNode::new(6..7, SymbolKeyword::Symbol(Symbol::Add)))
    );
    let mut words = Parser::new(" and or");
    assert_eq!(words.operator_of(10), None);
    assert_eq!(
        words.operator_of(9),
        Some(ParseNode::new(1..4, SymbolKeyword::Keyword(Keyword::And)))
    );
    assert_eq!(
        words.operator_of(10),
        Some(ParseNode::new(5..7, SymbolKeyword::Keyword(Keyword::Or)))
    );
    let mut same = Parser::new("2 ** 3");
    assert_eq!(same.operator().unwrap().unwrap().range, 0..6);
    let mut unary = Parser::new("-1");
    assert_eq!(unary.operand(1).unwrap().unwrap().range, 0..2);
    assert_eq!(Parser::new("-1").operand(0), Ok(None));
}

#[test]
fn primary_expressions_one_by_one() {
    assert_eq!(
        Parser::new(" true").word_literal(),
        Ok(Some(ParseNode::new(1..5, Expression::Bool(true))))
    );
    let mut word = Parser::new(" while");
    assert_eq!(word.word_literal(), Ok(None));
    assert_eq!(word.variable(), Ok(None));
    assert_eq!(word.named(), Ok(None));
    assert_eq!(word.iter.position(), 0);
    assert_eq!(word.primary(), Ok(None));
    assert_eq!(word.iter.position(), 1);
    assert_eq!(
        Parser::new("x").variable(),
        Ok(Some(ParseNode::new(0..1, Expression::Variable(StringName(0)))))
    );
    assert_eq!(Parser::new("_").variable(), Err(Error::new(0..1, ErrorType::UnderscoreVariable)));
    assert_eq!(Parser::new("(1)").grouping().unwrap().unwrap().range, 0..3);
    assert_eq!(Parser::new("[1]").grouping(), Ok(None));
    assert_eq!(Parser::new("[1]").array().unwrap().unwrap().range, 0..3);
    assert_eq!(Parser::new("{}").array(), Ok(None));
    assert_eq!(Parser::new("{}").dictionary().unwrap().unwrap().range, 0..2);
    assert_eq!(Parser::new("()").dictionary(), Ok(None));
    assert_eq!(Parser::new("{}").bracketed().unwrap().unwrap().range, 0..2);
    assert_eq!(Parser::new("[]").bracketed().unwrap().unwrap().range, 0..2);
    assert_eq!(Parser::new("(2)").bracketed().unwrap().unwrap().range, 0..3);
    assert_eq!(Parser::new("2").bracketed(), Ok(None));
    assert_eq!(Parser::new("2.x").suffix().unwrap().unwrap().range, 0..2);
    assert_eq!(Parser::new("!2").suffix(), Ok(None));
    assert_eq!(Parser::new("!2").unary().unwrap().unwrap().range, 0..2);
    assert_eq!(Parser::new("1 + 2").binary(1).unwrap().unwrap().range, 0..1);
    assert_eq!(Parser::new("1 + 2").binary(2).unwrap().unwrap().range, 0..5);
}

#[test]
fn entries_of_a_dictionary() {
    let mut parser = Parser::new("a: 1, [2]: 3 }");
    assert_eq!(
        parser.entry(),
        Ok(Some((ParseNode::new(0..1, DictionaryKey::Ident(StringName(0))), number(3..4, 1))))
    );
    assert_eq!(parser.symbol_eq(Symbol::Comma).map(|c| c.range), Some(4..5));
    assert_eq!(
        parser.entry_key(),
        Ok(Some(ParseNode::new(6..9, DictionaryKey::Expr(Expression::Int(2)))))
    );
    parser.iter.seek(5);
    assert_eq!(
        parser.entries(),
        Ok(vec![(ParseNode::new(6..9, DictionaryKey::Expr(Expression::Int(2))), number(11..12, 3))])
    );
    assert_eq!(parser.iter.position(), 12);
    assert_eq!(parser.entries(), Ok(vec![]));
    assert_eq!(parser.iter.position(), 12);
    assert_eq!(parser.entry(), Ok(None));
    assert_eq!(parser.iter.position(), 12);
    let key = ParseNode::new(0..1, DictionaryKey::Ident(StringName(0)));
    assert_eq!(Parser::new(": 5").entry_value(&key), Ok(number(2..3, 5)));
    assert_eq!(
        Parser::new("= 5").entry_value(&key),
        Err(Error::new(0..1, ErrorType::ExpectedColon))
    );
}

#[test]
fn declarations_one_by_one() {
    assert_eq!(Parser::new(" x").var_name(), Ok(Some(ParseNode::new(1..2, Some(StringName(0))))));
    assert_eq!(Parser::new("_").var_name(), Ok(Some(ParseNode::new(0..1, None))));
    assert_eq!(Parser::new("1").var_name(), Ok(None));
    assert_eq!(Parser::new("var").var_name(), Ok(None));
    let plain = ParseNode::new(
        0..1,
        VarDecl {
            pattern: ParseNode::new(0..1, VarNameType::Ident(Some(StringName(0)))),
            value: None,
        },
    );
    assert_eq!(Parser::new("x").func_param(), Ok(Some(plain)));
    let with_value = Parser::new("x = 1").func_param().unwrap().unwrap();
    assert_eq!(with_value.range, 0..5);
    assert_eq!(with_value.data.value, Some(number(4..5, 1)));
    assert_eq!(Parser::new("= 1").func_param(), Ok(None));
    let declared = Parser::new("var x = 1").var_decl().unwrap().unwrap();
    assert_eq!(declared.range, 0..9);
    assert_eq!(Parser::new("x = 1").var_decl(), Ok(None));
    let mut list = Parser::new("a, [b], c = 2, )");
    let params = list.parameters().unwrap();
    assert_eq!(params.len(), 3);
    assert_eq!(params[1].range, 3..6);
    assert_eq!(params[2].range, 8..13);
    assert_eq!(list.iter.position(), 14);
    let function = Parser::new("func f() {}").func_decl().unwrap().unwrap();
    assert_eq!(function.range, 0..11);
    assert_eq!(Parser::new("var x").func_decl(), Ok(None));
    let first = Parser::new("var x").declaration().unwrap().unwrap();
    assert!(matches!(first.data, Declaration::Var(_)));
    let second = Parser::new("func f() -> 1").declaration().unwrap().unwrap();
    assert!(matches!(second.data, Declaration::Func(_)));
    assert_eq!(Parser::new("1").declaration(), Ok(None));
}

#[test]
fn statements_one_by_one() {
    let empty = ParseNode::new(0..2, Block { statements: vec![] });
    assert_eq!(Parser::new("{}").block(), Ok(Some(empty)));
    assert_eq!(Parser::new("1").block(), Ok(None));
    let mut hooks = Parser::new("onbreak {} oncontinue {1;}");
    assert_eq!(hooks.oncontinue_block(), Ok(None));
    assert_eq!(hooks.iter.position(), 0);
    assert_eq!(hooks.onbreak_block().unwrap().unwrap().range, 0..10);
    assert_eq!(hooks.onbreak_block(), Ok(None));
    assert_eq!(hooks.iter.position(), 10);
    assert_eq!(hooks.oncontinue_block().unwrap().unwrap().range, 11..26);
    assert_eq!(Parser::new("else {}").hook(Keyword::Else).unwrap().unwrap().range, 0..7);
    assert_eq!(
        Parser::new("else 1").hook(Keyword::Else),
        Err(Error::new(0..4, ErrorType::ExpectedBlock))
    );
    let mut chain = Parser::new(" else {} x");
    let found = chain.else_chain().unwrap().unwrap();
    assert_eq!(found, ParseNode::new(1..8, ElseBlock::Block(Block { statements: vec![] })));
    assert_eq!(chain.else_chain(), Ok(None));
    assert_eq!(chain.iter.position(), 8);
    assert_eq!(Parser::new("if a {}").if_statement().unwrap().unwrap().range, 0..7);
    assert_eq!(Parser::new("while a {}").if_statement(), Ok(None));
    assert_eq!(Parser::new("while a {}").while_statement().unwrap().unwrap().range, 0..10);
    assert_eq!(Parser::new("if a {}").while_statement(), Ok(None));
    assert_eq!(Parser::new("if a {}").branching().unwrap().unwrap().range, 0..7);
    assert_eq!(Parser::new("{}").branching().unwrap().unwrap().range, 0..2);
    assert_eq!(Parser::new("var x").branching(), Ok(None));
    assert_eq!(Parser::new("{}").plain().unwrap().unwrap().range, 0..2);
    assert_eq!(Parser::new("1").plain().unwrap().unwrap().range, 0..1);
    assert_eq!(Parser::new("if a {}").plain(), Ok(None));
    assert_eq!(Parser::new("1;").statement().unwrap().unwrap().range, 0..1);
    assert_eq!(Parser::new("1;").terminated().unwrap().unwrap().range, 0..2);
    assert_eq!(Parser::new("{} ;").terminated().unwrap().unwrap().range, 0..2);
    assert_eq!(
        Parser::new("1").terminated(),
        Err(Error::new(0..1, ErrorType::ExpectedSemicolon))
    );
    let mut several = Parser::new("1; {} 2; }");
    let found: Vec<ParseNode<Statement>> = several.statements().unwrap();
    assert_eq!(found.len(), 3);
    assert_eq!(several.iter.position(), 9);
    let mut none = Parser::new("  var");
    assert_eq!(none.statement(), Err(Error::new(2..5, ErrorType::ExpectedVarName)));
    let mut nothing = Parser::new("  ) ");
    assert_eq!(nothing.block(), Ok(None));
    assert_eq!(nothing.declaration(), Ok(None));
    assert_eq!(nothing.if_statement(), Ok(None));
    assert_eq!(nothing.while_statement(), Ok(None));
    assert_eq!(nothing.iter.position(), 0);
    assert_eq!(nothing.statement(), Ok(None));
    assert_eq!(nothing.iter.position(), 2);
}
