use script_parser::parser::error::{DisplayError, Error, ErrorType};
use script_parser::parser::parser::report;
use script_parser::parser::Parser;

#[test]
fn an_unterminated_string_is_marked_to_the_end() {
    let source = "\"abc";
    let error = Parser::new(source).parse().unwrap_err();
    assert_eq!(error, Error::new(0..4, ErrorType::IncompleteString));
    assert_eq!(
        error.display(source),
        "line 1, column 1\nIncomplete string\n   1 | \"abc\n       ^^^^\n"
    );
}

#[test]
fn an_error_over_several_lines_marks_each_of_them() {
    let source = "ab\ncd\nef";
    let error = Error::new(1..7, ErrorType::ExpectedExpr);
    assert_eq!(
        error.display(source),
        "line 1, column 2\nExpected expression\n   1 | ab\n        ^\n   2 | cd\n       ^^\n   3 | ef\n       ^\n"
    );
}

#[test]
fn only_the_lines_of_the_error_are_shown() {
    let source = "var a = 1;\nvar b = ;\nvar c = 3;\n";
    let error = Parser::new(source).parse().unwrap_err();
    assert_eq!(error, Error::new(15..18, ErrorType::ExpectedExpr));
    assert_eq!(
        error.display(source),
        "line 2, column 5\nExpected expression\n   2 | var b = ;\n           ^^^\n"
    );
}

#[test]
fn line_numbers_keep_to_the_right() {
    let mut source = String::new();
    for _ in 0..11 {
        source.push('\n');
    }
    source.push_str("  )");
    let error = Parser::new(&source).parse().unwrap_err();
    assert_eq!(error, Error::new(13..14, ErrorType::ExpectedEOF));
    assert_eq!(
        error.display(&source),
        "line 12, column 3\nExpected end of file\n  12 |   )\n         ^\n"
    );
    let mut long = String::new();
    for _ in 0..999 {
        long.push('\n');
    }
    long.push(')');
    let error = Parser::new(&long).parse().unwrap_err();
    assert_eq!(
        error.display(&long),
        "line 1000, column 1\nExpected end of file\n 1000 | )\n        ^\n"
    );
}

#[test]
fn marks_stand_under_characters_not_bytes() {
    let source = "\u{e9}\u{e9} )";
    let error = Error::new(5..6, ErrorType::ExpectedEOF);
    assert_eq!(
        error.display(source),
        "line 1, column 4\nExpected end of file\n   1 | \u{e9}\u{e9} )\n          ^\n"
    );
}

#[test]
fn an_error_that_starts_at_no_character_has_no_locator() {
    let source = "ab";
    assert_eq!(Error::new(2..2, ErrorType::ExpectedExpr).display(source), "");
    assert_eq!(Error::new(0..0, ErrorType::ExpectedExpr).display(source), "line 1, column 1\nExpected expression\n");
    assert_eq!(Error::new(5..9, ErrorType::ExpectedExpr).display(source), "");
}

#[test]
fn an_error_that_starts_at_a_line_feed_is_in_the_line_that_it_ends() {
    let source = "ab\ncd";
    assert_eq!(
        Error::new(2..4, ErrorType::ExpectedExpr).display(source),
        "line 1, column 3\nExpected expression\n   2 | cd\n       ^\n"
    );
    assert_eq!(
        Error::new(2..3, ErrorType::ExpectedExpr).display("ab\r\ncd"),
        "line 1, column 3\nExpected expression\n"
    );
    assert_eq!(
        Error::new(0..1, ErrorType::ExpectedExpr).display("\n\n"),
        "line 1, column 1\nExpected expression\n"
    );
}

#[test]
fn line_endings_do_not_change_what_is_shown() {
    let unix = "var a = 1;\nvar s = \"ab\ncd";
    let dos = "var a = 1;\r\nvar s = \"ab\r\ncd";
    let old = "var a = 1;\rvar s = \"ab\rcd";
    let expected = "line 2, column 9\nIncomplete string\n   2 | var s = \"ab\n               ^^^\n   3 | cd\n       ^^\n";
    let error = Parser::new(unix).parse().unwrap_err();
    assert_eq!(error, Error::new(19..25, ErrorType::IncompleteString));
    assert_eq!(error.display(unix), expected);
    let error = Parser::new(dos).parse().unwrap_err();
    assert_eq!(error, Error::new(20..27, ErrorType::IncompleteString));
    assert_eq!(error.display(dos), expected);
    assert_eq!(Parser::new(old).parse().unwrap_err().display(old), expected);
    assert_eq!(report(unix), Some(expected.to_string()));
    assert_eq!(report(dos), report(unix));
    assert_eq!(report(old), report(unix));
}

#[test]
fn a_program_has_nothing_to_report() {
    assert_eq!(report("var x = 1;\r\nx + 1;"), None);
    assert_eq!(report(""), None);
}

#[test]
fn every_error_says_what_it_is() {
    let cases = [
        (ErrorType::IntOverflow, "Integer overflow"),
        (ErrorType::UnexpectedSymbol, "Unexpected symbol"),
        (ErrorType::ExpectedLParen, "Expected a '('"),
        (ErrorType::ExpectedRParen, "Expected a ')'"),
        (ErrorType::ExpectedLCurly, "Expected a '{'"),
        (ErrorType::ExpectedRCurly, "Expected a '}'"),
        (ErrorType::ExpectedLSquare, "Expected a '['"),
        (ErrorType::ExpectedRSquare, "Expected a ']'"),
        (ErrorType::ExpectedSemicolon, "Expected a ';'"),
        (ErrorType::ExpectedColon, "Expected a ':'"),
        (ErrorType::ExpectedAssign, "Expected a '='"),
        (ErrorType::ExpectedNumber, "Expected a number"),
        (ErrorType::ExpectedInteger, "Expected an integer"),
        (ErrorType::ExpectedIdent, "Expected an identifier"),
        (ErrorType::ExpectedFuncName, "Expected a function name"),
        (ErrorType::ExpectedExpr, "Expected expression"),
        (ErrorType::ExpectedVarName, "Expected variable name"),
        (ErrorType::ExpectedEOF, "Expected end of file"),
        (ErrorType::ExpectedBlock, "Expected a block of statements"),
        (ErrorType::ExpectedFuncBlock, "Expected a block or expression ('-> [expr]')"),
        (ErrorType::IncompleteString, "Incomplete string"),
        (ErrorType::IncompleteEscape, "Incomplete escape sequence"),
        (ErrorType::IncompleteChar, "Incomplete character literal"),
        (ErrorType::IncompleteCharCode, "Incomplete character code. Must have 2 digits"),
        (ErrorType::InvalidEscape, "Invalid escape sequence"),
        (ErrorType::InvalidCharCode, "Invalid character code"),
        (ErrorType::EmptyChar, "Empty character literal. Must have 1 character"),
        (
            ErrorType::TooManyChars,
            "Too many characters in character literal. Must have 1 character",
        ),
        (ErrorType::ExtraDots, "Cannot have multiple '...' symbol in array unpacking"),
        (ErrorType::UnderscoreVariable, "Cannot read from '_'. You can only assign to it"),
    ];
    for (error, text) in cases {
        assert_eq!(error.message(), text);
        assert_eq!(Error::new(0..1, error).message(), text);
    }
}
