use script_parser::parser::error::ErrorType;
use script_parser::parser::parse_node::{
    Block, Declaration, ElseBlock, Expression, FuncBlock, IfStatement, ParseNode, Statement,
    VarDecl, VarNameType, WhileStatement,
};
use script_parser::parser::Parser;
use script_parser::string_name::StringName;
use std::ops::Range;

fn number(range: Range<usize>, value: u64) -> ParseNode<Expression> {
    ParseNode::new(range, Expression::Int(value))
}

fn variable(range: Range<usize>, name: usize) -> ParseNode<Expression> {
    ParseNode::new(range, Expression::Variable(StringName(name)))
}

fn named(range: Range<usize>, name: usize) -> ParseNode<Option<StringName>> {
    ParseNode::new(range, Some(StringName(name)))
}

fn block_of(range: Range<usize>, statements: Vec<ParseNode<Statement>>) -> ParseNode<Block> {
    ParseNode::new(range, Block { statements })
}

fn number_statement(range: Range<usize>, value: u64) -> ParseNode<Statement> {
    ParseNode::new(range, Statement::Expression(Expression::Int(value)))
}

fn program(text: &str) -> Vec<ParseNode<Statement>> {
    Parser::new(text).parse().unwrap()
}

fn fails(text: &str) -> (ErrorType, Range<usize>) {
    let error = Parser::new(text).parse().unwrap_err();
    (error.error, error.range)
}

#[test]
fn an_empty_source_is_an_empty_program() {
    assert_eq!(program(""), vec![]);
    assert_eq!(program(" \n\t// nothing\n/* at all */"), vec![]);
}

#[test]
fn a_statement_spans_its_semicolon() {
    let found = program("1;  2 ;");
    assert_eq!(found, vec![number_statement(0..2, 1), number_statement(4..7, 2)]);
}

#[test]
fn destructuring_with_names_before_and_behind_the_dots() {
    let found = program("var [a, b, ..., c, d] = [1, 2, 3, 4, 5];");
    assert_eq!(found.len(), 1);
    let Statement::Declaration(Declaration::Var(decl)) = &found[0].data else {
        panic!("not a declaration of variables");
    };
    assert_eq!(
        decl.pattern,
        ParseNode::new(
            4..21,
            VarNameType::Array {
                start_names: vec![named(5..6, 0), named(8..9, 1)],
                end_names: vec![named(16..17, 2), named(19..20, 3)],
            }
        )
    );
    let Some(ParseNode { data: Expression::Array(items), range }) = &decl.value else {
        panic!("not an array");
    };
    assert_eq!(*range, 24..39);
    assert_eq!(items.len(), 5);
}

#[test]
fn destructuring_of_an_array() {
    let found = program("var [a,...,b] = arr;");
    assert_eq!(
        found,
        vec![ParseNode::new(
            0..20,
            Statement::Declaration(Declaration::Var(VarDecl {
                pattern: ParseNode::new(
                    4..13,
                    VarNameType::Array {
                        start_names: vec![named(5..6, 0)],
                        end_names: vec![named(11..12, 1)],
                    }
                ),
                value: Some(variable(16..19, 2)),
            }))
        )]
    );
}

#[test]
fn patterns_of_every_shape() {
    let cases: Vec<(&str, Range<usize>, VarNameType)> = vec![
        ("x", 0..1, VarNameType::Ident(Some(StringName(0)))),
        ("_", 0..1, VarNameType::Ident(None)),
        ("[]", 0..2, VarNameType::Array { start_names: vec![], end_names: vec![] }),
        ("[...]", 0..5, VarNameType::Array { start_names: vec![], end_names: vec![] }),
        (
            "[a, _,]",
            0..7,
            VarNameType::Array {
                start_names: vec![named(1..2, 0), ParseNode::new(4..5, None)],
                end_names: vec![],
            },
        ),
        (
            "[..., a]",
            0..8,
            VarNameType::Array { start_names: vec![], end_names: vec![named(6..7, 0)] },
        ),
    ];
    for (text, range, pattern) in cases {
        let mut parser = Parser::new(text);
        assert_eq!(parser.pattern(), Ok(Some(ParseNode::new(range, pattern))), "{}", text);
    }
    for text in ["", "1", "{a}", "if"] {
        let mut parser = Parser::new(text);
        assert_eq!(parser.pattern(), Ok(None), "{}", text);
    }
}

#[test]
fn a_second_variadic_marker_is_an_error() {
    assert_eq!(fails("var [a, ..., b, ...] = x;"), (ErrorType::ExtraDots, 16..19));
    assert_eq!(fails("var [..., ...] = x;"), (ErrorType::ExtraDots, 10..13));
}

#[test]
fn errors_in_declarations_of_variables() {
    assert_eq!(fails("var"), (ErrorType::ExpectedVarName, 0..3));
    assert_eq!(fails("var 1"), (ErrorType::ExpectedVarName, 0..3));
    assert_eq!(fails("var {a} = x;"), (ErrorType::ExpectedVarName, 0..3));
    assert_eq!(fails("var [a"), (ErrorType::ExpectedRSquare, 4..6));
    assert_eq!(fails("var [a, "), (ErrorType::ExpectedRSquare, 4..7));
    assert_eq!(fails("var ["), (ErrorType::ExpectedRSquare, 4..5));
    assert_eq!(fails("var x ="), (ErrorType::ExpectedExpr, 4..7));
    assert_eq!(fails("var x = 1"), (ErrorType::ExpectedSemicolon, 0..9));
    assert_eq!(fails("var x"), (ErrorType::ExpectedSemicolon, 0..5));
    assert_eq!(fails("x y"), (ErrorType::ExpectedSemicolon, 0..1));
}

#[test]
fn a_declaration_without_value() {
    let found = program("var x;");
    assert_eq!(
        found,
        vec![ParseNode::new(
            0..6,
            Statement::Declaration(Declaration::Var(VarDecl {
                pattern: ParseNode::new(4..5, VarNameType::Ident(Some(StringName(0)))),
                value: None,
            }))
        )]
    );
}

#[test]
fn functions_with_a_block_or_an_expression() {
    let found = program("func add(a, b = 1) { a + b; } func two() -> 2");
    assert_eq!(found.len(), 2);
    let Statement::Declaration(Declaration::Func(add)) = &found[0].data else {
        panic!("not a function");
    };
    assert_eq!(found[0].range, 0..29);
    assert_eq!(add.name, ParseNode::new(5..8, StringName(0)));
    assert_eq!(add.params.len(), 2);
    assert_eq!(
        add.params[0],
        ParseNode::new(
            9..10,
            VarDecl {
                pattern: ParseNode::new(9..10, VarNameType::Ident(Some(StringName(1)))),
                value: None
            }
        )
    );
    assert_eq!(
        add.params[1],
        ParseNode::new(
            12..17,
            VarDecl {
                pattern: ParseNode::new(12..13, VarNameType::Ident(Some(StringName(2)))),
                value: Some(number(16..17, 1)),
            }
        )
    );
    assert_eq!(add.block.range, 19..29);
    let FuncBlock::Block(body) = &add.block.data else {
        panic!("not a block");
    };
    assert_eq!(body.statements.len(), 1);
    assert_eq!(body.statements[0].range, 21..27);
    let Statement::Declaration(Declaration::Func(two)) = &found[1].data else {
        panic!("not a function");
    };
    assert_eq!(found[1].range, 30..45);
    assert_eq!(two.params.len(), 0);
    assert_eq!(two.block, ParseNode::new(44..45, FuncBlock::ReturnExpr(Expression::Int(2))));
}

#[test]
fn errors_in_declarations_of_functions() {
    assert_eq!(fails("func"), (ErrorType::ExpectedFuncName, 0..4));
    assert_eq!(fails("func ("), (ErrorType::ExpectedFuncName, 0..4));
    assert_eq!(fails("func f"), (ErrorType::ExpectedLParen, 0..6));
    assert_eq!(fails("func f("), (ErrorType::ExpectedRParen, 6..7));
    assert_eq!(fails("func f(a, b"), (ErrorType::ExpectedRParen, 6..11));
    assert_eq!(fails("func f(a = )"), (ErrorType::ExpectedExpr, 7..10));
    assert_eq!(fails("func f()"), (ErrorType::ExpectedFuncBlock, 0..8));
    assert_eq!(fails("func f() ->"), (ErrorType::ExpectedExpr, 9..11));
    assert_eq!(fails("func f() {"), (ErrorType::ExpectedRCurly, 9..10));
}

#[test]
fn elif_and_else_fold_to_the_right() {
    let found = program("if a {1;} elif b {2;} else {3;}");
    let last = ParseNode::new(
        22..31,
        ElseBlock::Block(Block { statements: vec![number_statement(28..30, 3)] }),
    );
    let middle = ParseNode::new(
        10..31,
        ElseBlock::If(Box::new(IfStatement {
            condition: variable(15..16, 1),
            met_block: block_of(17..21, vec![number_statement(18..20, 2)]),
            else_block: Some(last),
        })),
    );
    let expected = ParseNode::new(
        0..31,
        Statement::If(IfStatement {
            condition: variable(3..4, 0),
            met_block: block_of(5..9, vec![number_statement(6..8, 1)]),
            else_block: Some(middle),
        }),
    );
    assert_eq!(found, vec![expected]);
}

#[test]
fn an_expression_in_a_block_needs_its_semicolon() {
    assert_eq!(fails("if a {1} elif b {2} else {3}"), (ErrorType::ExpectedSemicolon, 6..7));
    assert_eq!(fails("{ 1; 2 }"), (ErrorType::ExpectedSemicolon, 5..6));
}

#[test]
fn an_if_alone_and_chains_of_elif() {
    let found = program("if a {}");
    assert_eq!(
        found,
        vec![ParseNode::new(
            0..7,
            Statement::If(IfStatement {
                condition: variable(3..4, 0),
                met_block: block_of(5..7, vec![]),
                else_block: None,
            })
        )]
    );
    let chain = program("if a {} elif b {} elif c {}");
    let Statement::If(first) = &chain[0].data else {
        panic!("not an if");
    };
    assert_eq!(chain[0].range, 0..27);
    let second = first.else_block.as_ref().unwrap();
    assert_eq!(second.range, 8..27);
    let ElseBlock::If(second) = &second.data else {
        panic!("not an elif");
    };
    let third = second.else_block.as_ref().unwrap();
    assert_eq!(third.range, 18..27);
    let ElseBlock::If(third) = &third.data else {
        panic!("not an elif");
    };
    assert_eq!(third.condition, variable(23..24, 2));
    assert_eq!(third.else_block, None);
}

#[test]
fn errors_in_conditions() {
    assert_eq!(fails("if"), (ErrorType::ExpectedExpr, 0..2));
    assert_eq!(fails("if a"), (ErrorType::ExpectedBlock, 0..4));
    assert_eq!(fails("if a {"), (ErrorType::ExpectedRCurly, 5..6));
    assert_eq!(fails("if a {1; 2;"), (ErrorType::ExpectedRCurly, 5..11));
    assert_eq!(fails("if a {} elif"), (ErrorType::ExpectedExpr, 8..12));
    assert_eq!(fails("if a {} elif b"), (ErrorType::ExpectedBlock, 8..14));
    assert_eq!(fails("if a {} else"), (ErrorType::ExpectedBlock, 8..12));
    assert_eq!(fails("if a {} else {} else {}"), (ErrorType::ExpectedEOF, 16..17));
    assert_eq!(fails("else {}"), (ErrorType::ExpectedEOF, 0..1));
}

#[test]
fn while_with_hooks_in_either_order() {
    let plain = program("while a {}");
    assert_eq!(
        plain,
        vec![ParseNode::new(
            0..10,
            Statement::While(WhileStatement {
                condition: variable(6..7, 0),
                loop_block: block_of(8..10, vec![]),
                on_break: None,
                on_continue: None,
            })
        )]
    );
    let both = program("while a {} onbreak {1;} oncontinue {}");
    assert_eq!(
        both,
        vec![ParseNode::new(
            0..37,
            Statement::While(WhileStatement {
                condition: variable(6..7, 0),
                loop_block: block_of(8..10, vec![]),
                on_break: Some(block_of(11..23, vec![number_statement(20..22, 1)])),
                on_continue: Some(block_of(24..37, vec![])),
            })
        )]
    );
    let turned = program("while a {} oncontinue {} onbreak {}");
    assert_eq!(
        turned,
        vec![ParseNode::new(
            0..35,
            Statement::While(WhileStatement {
                condition: variable(6..7, 0),
                loop_block: block_of(8..10, vec![]),
                on_break: Some(block_of(25..35, vec![])),
                on_continue: Some(block_of(11..24, vec![])),
            })
        )]
    );
    let one = program("while a {} oncontinue {}");
    let Statement::While(repeat) = &one[0].data else {
        panic!("not a while");
    };
    assert_eq!(one[0].range, 0..24);
    assert_eq!(repeat.on_break, None);
    assert_eq!(repeat.on_continue, Some(block_of(11..24, vec![])));
}

#[test]
fn errors_in_loops() {
    assert_eq!(fails("while"), (ErrorType::ExpectedExpr, 0..5));
    assert_eq!(fails("while a"), (ErrorType::ExpectedBlock, 0..7));
    assert_eq!(fails("while a {} onbreak"), (ErrorType::ExpectedBlock, 11..18));
    assert_eq!(fails("while a {} oncontinue 1"), (ErrorType::ExpectedBlock, 11..21));
    assert_eq!(fails("while a {} onbreak {} onbreak {}"), (ErrorType::ExpectedEOF, 22..23));
}

#[test]
fn blocks_nest() {
    let found = program("{ { 1; } }");
    let inner = ParseNode::new(
        2..8,
        Statement::Block(Block { statements: vec![number_statement(4..6, 1)] }),
    );
    assert_eq!(found, vec![ParseNode::new(0..10, Statement::Block(Block { statements: vec![inner] }))]);
}

#[test]
fn what_is_left_over_is_an_error() {
    assert_eq!(fails("1; )"), (ErrorType::ExpectedEOF, 3..4));
    assert_eq!(fails("}"), (ErrorType::ExpectedEOF, 0..1));
    assert_eq!(fails("1; \u{e9}\u{e9} = 2"), (ErrorType::ExpectedSemicolon, 3..7));
    assert_eq!(fails("{} \u{2260}"), (ErrorType::ExpectedEOF, 3..6));
}

#[test]
fn requires_semicolon_for_expressions_and_variables() {
    let mut parser = Parser::new("1 var x {} if a {} while a {} func f() {}");
    let mut answers = Vec::new();
    while let Some(statement) = parser.statement().unwrap() {
        answers.push(Parser::requires_semicolon(&statement.data));
    }
    assert_eq!(answers, vec![true, true, false, false, false, false]);
}

#[test]
fn every_span_lies_in_the_source() {
    let text = "func f(a, [b, ..., c] = [1, 2]) { if a { g(b)[0].h; } elif c {} else { while a {} onbreak {} } }\nvar d = {k: \"v\", [1]: 'c'};";
    let found = program(text);
    assert_eq!(found.len(), 2);
    assert_eq!(found[0].range, 0..96);
    assert_eq!(found[1].range, 97..text.len());
    for node in &found {
        assert!(node.range.start <= node.range.end && node.range.end <= text.len());
    }
}
