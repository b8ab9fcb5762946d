use script_parser::parser::error::ErrorType;
use script_parser::parser::operator::binds;
use script_parser::parser::parse_node::{
    Binary, DictionaryKey, Expression, Keyword, ParseNode, RealLiteral, Suffix, SuffixType,
    Symbol, SymbolKeyword, Unary,
};
use script_parser::parser::Parser;
use script_parser::string_name::StringName;
use std::ops::Range;

type Node = ParseNode<Expression>;

fn number(range: Range<usize>, value: u64) -> Node {
    ParseNode::new(range, Expression::Int(value))
}

fn variable(range: Range<usize>, name: usize) -> Node {
    ParseNode::new(range, Expression::Variable(StringName(name)))
}

fn joined(range: Range<usize>, operator: SymbolKeyword, left: Node, right: Node) -> Node {
    ParseNode::new(
        range,
        Expression::Binary(Binary { left: Box::new(left), right: Box::new(right), operator }),
    )
}

fn by_symbol(range: Range<usize>, op: Symbol, left: Node, right: Node) -> Node {
    joined(range, SymbolKeyword::Symbol(op), left, right)
}

fn prefixed(range: Range<usize>, op: Symbol, operand: Node) -> Node {
    ParseNode::new(range, Expression::Unary(Unary { operand: Box::new(operand), operator: op }))
}

fn with_suffix(range: Range<usize>, node: Node, suffix: SuffixType) -> Node {
    ParseNode::new(range, Expression::Suffix(Suffix { node: Box::new(node), suffix }))
}

fn read(text: &str) -> Node {
    let mut parser = Parser::new(text);
    let found = parser.expression().unwrap().unwrap();
    assert_eq!(parser.iter.position(), text.trim_end().chars().count());
    found
}

fn fails(text: &str) -> (ErrorType, Range<usize>) {
    let mut parser = Parser::new(text);
    let error = parser.expression().unwrap_err();
    (error.error, error.range)
}

#[test]
fn literals() {
    assert_eq!(read("12"), number(0..2, 12));
    assert_eq!(read(" true "), ParseNode::new(1..5, Expression::Bool(true)));
    assert_eq!(read("false"), ParseNode::new(0..5, Expression::Bool(false)));
    assert_eq!(read("none"), ParseNode::new(0..4, Expression::Nothing));
    assert_eq!(read("\"hi\""), ParseNode::new(0..4, Expression::String("hi".to_string())));
    assert_eq!(read("'c'"), ParseNode::new(0..3, Expression::Char('c')));
    assert_eq!(
        read("2.5"),
        ParseNode::new(
            0..3,
            Expression::Real(RealLiteral {
                integer: 2,
                fraction: 5,
                fraction_digits: 1,
                exponent_negative: false,
                exponent: 0,
            })
        )
    );
    assert_eq!(read("count"), variable(0..5, 0));
}

#[test]
fn no_expression_is_no_error() {
    for (text, behind) in
        [("", 0), ("  ", 2), (";", 0), (" )", 1), ("var", 0), ("// only a comment", 17)]
    {
        let mut parser = Parser::new(text);
        assert_eq!(parser.expression(), Ok(None), "{}", text);
        assert_eq!(parser.iter.position(), behind, "{}", text);
    }
}

#[test]
fn operators_of_one_level_group_from_the_left() {
    let first = by_symbol(0..5, Symbol::Sub, number(0..1, 8), number(4..5, 3));
    assert_eq!(read("8 - 3 + 1"), by_symbol(0..9, Symbol::Add, first, number(8..9, 1)));
    let quotient = by_symbol(0..3, Symbol::Div, number(0..1, 8), number(2..3, 4));
    let rest = by_symbol(0..5, Symbol::Mod, quotient, number(4..5, 3));
    assert_eq!(read("8/4%3*2"), by_symbol(0..7, Symbol::Mul, rest, number(6..7, 2)));
}

#[test]
fn every_level_binds_tighter_than_the_one_before() {
    let text = "a or b and c | d ^ e & f == g < h << i + j * k ** l";
    let at = |letter: char| text.find(letter).unwrap();
    let name = |letter: char, index: usize| variable(at(letter)..at(letter) + 1, index);
    let end = text.len();
    assert_eq!(end, 51);
    let power = by_symbol(at('k')..end, Symbol::Pow, name('k', 10), name('l', 11));
    let product = by_symbol(at('j')..end, Symbol::Mul, name('j', 9), power);
    let sum = by_symbol(at('i')..end, Symbol::Add, name('i', 8), product);
    let shift = by_symbol(at('h')..end, Symbol::LeftShift, name('h', 7), sum);
    let less = by_symbol(at('g')..end, Symbol::Less, name('g', 6), shift);
    let equal = by_symbol(at('f')..end, Symbol::Eq, name('f', 5), less);
    let and = by_symbol(at('e')..end, Symbol::And, name('e', 4), equal);
    let xor = by_symbol(15..end, Symbol::Xor, variable(15..16, 3), and);
    let or = by_symbol(11..end, Symbol::Or, variable(11..12, 2), xor);
    let both = joined(5..end, SymbolKeyword::Keyword(Keyword::And), variable(5..6, 1), or);
    let either = joined(0..end, SymbolKeyword::Keyword(Keyword::Or), variable(0..1, 0), both);
    assert_eq!(read(text), either);
}

#[test]
fn comparison_operators() {
    for (text, op, end) in [
        ("1 < 2", Symbol::Less, 5),
        ("1 > 2", Symbol::Greater, 5),
        ("1 <= 2", Symbol::LessEq, 6),
        ("1 >= 2", Symbol::GreaterEq, 6),
        ("1 != 2", Symbol::NotEq, 6),
        ("1 >> 2", Symbol::RightShift, 6),
    ] {
        assert_eq!(read(text), by_symbol(0..end, op, number(0..1, 1), number(end - 1..end, 2)));
    }
}

#[test]
fn prefix_operators_apply_from_the_operand_outward() {
    let inner = prefixed(1..3, Symbol::Not, variable(2..3, 0));
    assert_eq!(read("-!a"), prefixed(0..3, Symbol::Sub, inner));
    let power = by_symbol(1..5, Symbol::Pow, number(1..2, 2), number(4..5, 3));
    assert_eq!(read("-2**3"), prefixed(0..5, Symbol::Sub, power));
    let negated = prefixed(4..6, Symbol::Sub, number(5..6, 2));
    assert_eq!(read("1 * -2"), by_symbol(0..6, Symbol::Mul, number(0..1, 1), negated));
    assert_eq!(read("+ 1"), prefixed(0..3, Symbol::Add, number(2..3, 1)));
}

#[test]
fn a_prefix_operator_without_operand_reads_nothing() {
    let mut parser = Parser::new(" - ;");
    assert_eq!(parser.expression(), Ok(None));
    assert_eq!(parser.iter.position(), 1);
    let error = Parser::new("-").parse().unwrap_err();
    assert_eq!((error.error, error.range), (ErrorType::ExpectedEOF, 0..1));
}

#[test]
fn suffixes_nest_to_the_left() {
    // a.b(c)[d]
    let property = with_suffix(0..3, variable(0..1, 0), SuffixType::Property(StringName(1)));
    let call = with_suffix(0..6, property, SuffixType::Call(vec![variable(4..5, 2)]));
    let index = with_suffix(0..9, call, SuffixType::Index(Box::new(variable(7..8, 3))));
    assert_eq!(read("a.b(c)[d]"), index);
}

#[test]
fn calls_take_any_number_of_arguments() {
    assert_eq!(read("f()"), with_suffix(0..3, variable(0..1, 0), SuffixType::Call(vec![])));
    assert_eq!(
        read("f(1, 2,)"),
        with_suffix(
            0..8,
            variable(0..1, 0),
            SuffixType::Call(vec![number(2..3, 1), number(5..6, 2)])
        )
    );
}

#[test]
fn arguments_stop_where_no_expression_follows() {
    let mut parser = Parser::new("1, 2 , ) x");
    assert_eq!(parser.arguments(), Ok(vec![number(0..1, 1), number(3..4, 2)]));
    assert_eq!(parser.iter.position(), 7);
    let mut single = Parser::new("a b");
    assert_eq!(single.arguments(), Ok(vec![variable(0..1, 0)]));
    assert_eq!(single.iter.position(), 1);
    let mut none = Parser::new(")");
    assert_eq!(none.arguments(), Ok(vec![]));
    assert_eq!(none.iter.position(), 0);
}

#[test]
fn groupings_and_arrays() {
    let sum = by_symbol(1..6, Symbol::Add, number(1..2, 1), number(5..6, 2));
    let group = ParseNode::new(0..7, Expression::Grouping(Box::new(sum)));
    assert_eq!(read("(1 + 2) * 3"), by_symbol(0..11, Symbol::Mul, group, number(10..11, 3)));
    assert_eq!(read("[]"), ParseNode::new(0..2, Expression::Array(vec![])));
    assert_eq!(
        read("[1, [2], a]"),
        ParseNode::new(
            0..11,
            Expression::Array(vec![
                number(1..2, 1),
                ParseNode::new(4..7, Expression::Array(vec![number(5..6, 2)])),
                variable(9..10, 0),
            ])
        )
    );
}

#[test]
fn dictionaries_with_names_and_computed_keys() {
    assert_eq!(read("{}"), ParseNode::new(0..2, Expression::Dictionary(vec![])));
    let found = read("{a: 1, [b]: 2}");
    let expected = ParseNode::new(
        0..14,
        Expression::Dictionary(vec![
            (ParseNode::new(1..2, DictionaryKey::Ident(StringName(0))), number(4..5, 1)),
            (
                ParseNode::new(7..10, DictionaryKey::Expr(Expression::Variable(StringName(1)))),
                number(12..13, 2),
            ),
        ]),
    );
    assert_eq!(found, expected);
}

#[test]
fn a_missing_operand_is_an_error() {
    assert_eq!(fails("1 +"), (ErrorType::ExpectedExpr, 0..3));
    assert_eq!(fails("1 + 2 * ;"), (ErrorType::ExpectedExpr, 4..7));
    assert_eq!(fails("a and"), (ErrorType::ExpectedExpr, 0..5));
    assert_eq!(fails("a or )"), (ErrorType::ExpectedExpr, 0..4));
    assert_eq!(fails("2 ** "), (ErrorType::ExpectedExpr, 0..4));
}

#[test]
fn errors_in_brackets() {
    assert_eq!(fails("()"), (ErrorType::ExpectedExpr, 0..1));
    assert_eq!(fails("(1"), (ErrorType::ExpectedRParen, 0..2));
    assert_eq!(fails("(1 + 2 ]"), (ErrorType::ExpectedRParen, 0..6));
    assert_eq!(fails("[1, 2"), (ErrorType::ExpectedRSquare, 0..5));
    assert_eq!(fails("["), (ErrorType::ExpectedRSquare, 0..1));
    assert_eq!(fails("[1 2]"), (ErrorType::ExpectedRSquare, 0..2));
    assert_eq!(fails("{a 1}"), (ErrorType::ExpectedColon, 1..2));
    assert_eq!(fails("{a: }"), (ErrorType::ExpectedExpr, 1..3));
    assert_eq!(fails("{a: 1"), (ErrorType::ExpectedRCurly, 0..5));
    assert_eq!(fails("{"), (ErrorType::ExpectedRCurly, 0..1));
    assert_eq!(fails("{[]: 1}"), (ErrorType::ExpectedExpr, 1..2));
    assert_eq!(fails("{[a: 1}"), (ErrorType::ExpectedRSquare, 1..3));
}

#[test]
fn errors_in_suffixes() {
    assert_eq!(fails("a."), (ErrorType::ExpectedIdent, 1..2));
    assert_eq!(fails("a.if"), (ErrorType::ExpectedIdent, 1..2));
    assert_eq!(fails("a["), (ErrorType::ExpectedExpr, 1..2));
    assert_eq!(fails("a[1"), (ErrorType::ExpectedRSquare, 1..3));
    assert_eq!(fails("f(1, 2"), (ErrorType::ExpectedRParen, 1..6));
    assert_eq!(fails("f("), (ErrorType::ExpectedRParen, 1..2));
}

#[test]
fn the_discard_name_cannot_be_read() {
    assert_eq!(fails("_"), (ErrorType::UnderscoreVariable, 0..1));
    assert_eq!(fails("1 + _"), (ErrorType::UnderscoreVariable, 4..5));
    assert_eq!(read("_x"), variable(0..2, 0));
    assert_eq!(read("__"), variable(0..2, 0));
}

#[test]
fn errors_in_literals_come_through() {
    assert_eq!(fails("1 + \"abc"), (ErrorType::IncompleteString, 4..8));
    assert_eq!(fails("[''"), (ErrorType::EmptyChar, 1..3));
    assert_eq!(fails("99999999999999999999"), (ErrorType::IntOverflow, 0..20));
}

#[test]
fn binds_tells_the_operators_of_each_level() {
    assert!(binds(0, Symbol::Pow));
    assert!(binds(1, Symbol::Mod));
    assert!(binds(2, Symbol::Sub));
    assert!(binds(3, Symbol::RightShift));
    assert!(binds(4, Symbol::GreaterEq));
    assert!(binds(5, Symbol::NotEq));
    assert!(binds(6, Symbol::And));
    assert!(binds(7, Symbol::Xor));
    assert!(binds(8, Symbol::Or));
    assert!(!binds(2, Symbol::Mul));
    assert!(!binds(9, Symbol::And));
    assert!(!binds(5, Symbol::Assign));
    assert!(Parser::is_assign_operator(Symbol::LeftShift));
    assert!(!Parser::is_assign_operator(Symbol::Pow));
}
