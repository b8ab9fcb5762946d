use script_parser::parser::error::ErrorType;
use script_parser::parser::parse_node::{
    Binary, Declaration, Expression, ParseNode, Statement, Symbol, SymbolKeyword, VarNameType,
};
use script_parser::parser::Parser;
use script_parser::string_name::StringName;

fn whole(range: std::ops::Range<usize>, value: u64) -> Box<ParseNode<Expression>> {
    Box::new(ParseNode::new(range, Expression::Int(value)))
}

fn binary(
    range: std::ops::Range<usize>,
    op: Symbol,
    left: Box<ParseNode<Expression>>,
    right: Box<ParseNode<Expression>>,
) -> ParseNode<Expression> {
    ParseNode::new(
        range,
        Expression::Binary(Binary { left, right, operator: SymbolKeyword::Symbol(op) }),
    )
}

#[test]
fn product_binds_tighter_than_sum() {
    let mut parser = Parser::new("1+2*3");
    let found = parser.expression().unwrap().unwrap();
    let product = binary(2..5, Symbol::Mul, whole(2..3, 2), whole(4..5, 3));
    assert_eq!(found, binary(0..5, Symbol::Add, whole(0..1, 1), Box::new(product)));
}

#[test]
fn power_groups_from_the_left() {
    let mut parser = Parser::new("2**3**2");
    let found = parser.expression().unwrap().unwrap();
    let first = binary(0..4, Symbol::Pow, whole(0..1, 2), whole(3..4, 3));
    assert_eq!(found, binary(0..7, Symbol::Pow, Box::new(first), whole(6..7, 2)));
}

#[test]
fn variable_declaration_with_a_sum() {
    let mut parser = Parser::new("var x = 1 + 2;");
    let program = parser.parse().unwrap();
    assert_eq!(program.len(), 1);
    assert_eq!(program[0].range, 0..14);
    match &program[0].data {
        Statement::Declaration(Declaration::Var(decl)) => {
            assert_eq!(decl.pattern.data, VarNameType::Ident(Some(StringName(0))));
            assert_eq!(decl.pattern.range, 4..5);
            let value = decl.value.as_ref().unwrap();
            assert_eq!(*value, binary(8..13, Symbol::Add, whole(8..9, 1), whole(12..13, 2)));
        }
        other => panic!("not a declaration of variables: {:?}", other),
    }
    assert_eq!(parser.interner.text_of(StringName(0)), Some("x"));
}

#[test]
fn unterminated_string_is_incomplete() {
    let mut parser = Parser::new("\"abc");
    let error = parser.parse().unwrap_err();
    assert_eq!(error.error, ErrorType::IncompleteString);
    assert_eq!(error.range, 0..4);
}
