//! The syntax tree: nodes with their spans, and the kinds of token.

use crate::string_name::StringName;
use std::ops::Range;
use vstd::prelude::*;

verus! {

/// A piece of syntax with the byte range of the source that it was read from.
#[derive(Debug, PartialEq)]
pub struct ParseNode<T> {
    pub data: T,
    pub range: Range<usize>,
}

impl<T> ParseNode<T> {
    /// A node with this range and this data.
    pub fn new(range: Range<usize>, data: T) -> (node: Self)
        ensures
            node.range == range,
            node.data == data,
    {
        Self { data, range }
    }

    /// Byte offset at which the node starts.
    pub fn start(&self) -> (offset: usize)
        ensures
            offset == self.range.start,
    {
        self.range.start
    }

    /// Byte offset just behind the node.
    pub fn end(&self) -> (offset: usize)
        ensures
            offset == self.range.end,
    {
        self.range.end
    }

    /// The node with its data run through a conversion; the range stays.
    pub fn convert<T2, F: FnOnce(T) -> T2>(self, conversion: F) -> (node: ParseNode<T2>)
        requires
            conversion.requires((self.data,)),
        ensures
            node.range == self.range,
            conversion.ensures((self.data,), node.data),
    {
        ParseNode { data: conversion(self.data), range: self.range }
    }

    /// The node with other data; the range stays.
    pub fn replace<T2>(self, value: T2) -> (node: ParseNode<T2>)
        ensures
            node.range == self.range,
            node.data == value,
    {
        ParseNode { data: value, range: self.range }
    }
}

/// A declaration: of variables, or of a function.
#[derive(Debug, PartialEq)]
pub enum Declaration {
    Var(VarDecl),
    Func(FuncDecl),
}

/// A declaration of a function: its name, its parameters and what it does.
#[derive(Debug, PartialEq)]
pub struct FuncDecl {
    pub name: ParseNode<StringName>,
    pub params: Vec<ParseNode<VarDecl>>,
    pub block: ParseNode<FuncBlock>,
}

/// What a function does: a block, or one expression whose value it returns.
#[derive(Debug, PartialEq)]
pub enum FuncBlock {
    Block(Block),
    ReturnExpr(Expression),
}

/// A pattern of names with the value that they are bound to, if one is given.
#[derive(Debug, PartialEq)]
pub struct VarDecl {
    pub pattern: ParseNode<VarNameType>,
    pub value: Option<ParseNode<Expression>>,
}

/// The names that a declaration binds. A missing name stands for `_`: the value
/// is dropped.
#[derive(Debug, PartialEq)]
pub enum VarNameType {
    /// One name.
    Ident(Option<StringName>),
    /// Names for the first and for the last elements of a sequence, parted by
    /// `...`, which stands for the elements between them.
    Array { start_names: Vec<ParseNode<Option<StringName>>>, end_names: Vec<ParseNode<Option<StringName>>> },
    /// Names for the fields of an object. No syntax produces it yet.
    Object(Vec<(StringName, ParseNode<StringName>)>),
}

/// A statement.
#[derive(Debug, PartialEq)]
pub enum Statement {
    Declaration(Declaration),
    Expression(Expression),
    If(IfStatement),
    While(WhileStatement),
    Block(Block),
}

/// Statements in curly brackets.
#[derive(Debug, PartialEq)]
pub struct Block {
    pub statements: Vec<ParseNode<Statement>>,
}

/// A number with a fraction or an exponent, kept as the digits that were
/// written: `integer`, then `fraction_digits` digits behind the point that read
/// as `fraction`, times ten to the power of `exponent`, or of its negative.
#[derive(Debug, Clone, Copy, PartialEq, Eq, Structural)]
pub struct RealLiteral {
    pub integer: u64,
    pub fraction: u64,
    pub fraction_digits: usize,
    pub exponent_negative: bool,
    pub exponent: u64,
}

/// An expression.
#[derive(Debug, PartialEq)]
pub enum Expression {
    /// The literal `none`.
    Nothing,
    Bool(bool),
    Int(u64),
    Real(RealLiteral),
    String(String),
    Char(char),
    Array(Vec<ParseNode<Expression>>),
    Dictionary(Dictionary),
    Variable(StringName),
    Binary(Binary),
    Unary(Unary),
    Suffix(Suffix),
    Grouping(Box<ParseNode<Expression>>),
}

/// A function without a name: its arguments and what it does. No syntax
/// produces it yet.
#[derive(Debug, PartialEq)]
pub struct Closure {
    pub args: Vec<ParseNode<StringName>>,
    pub block: Block,
}

/// A loop: its condition and its block, with the blocks that run when the
/// loop is left by `break` and when a round is cut short by `continue`.
#[derive(Debug, PartialEq)]
pub struct WhileStatement {
    pub condition: ParseNode<Expression>,
    pub loop_block: ParseNode<Block>,
    pub on_break: Option<ParseNode<Block>>,
    pub on_continue: Option<ParseNode<Block>>,
}

/// A condition, the block for the case that it holds, and what stands for
/// the case that it does not.
#[derive(Debug, PartialEq)]
pub struct IfStatement {
    pub condition: ParseNode<Expression>,
    pub met_block: ParseNode<Block>,
    pub else_block: Option<ParseNode<ElseBlock>>,
}

/// What stands for the case that a condition does not hold: the block of an
/// `else`, or, for an `elif`, another condition with all that follows it.
#[derive(Debug, PartialEq)]
pub enum ElseBlock {
    Block(Block),
    If(Box<IfStatement>),
}

/// The entries of a dictionary, each a key and a value.
pub type Dictionary = Vec<(ParseNode<DictionaryKey>, ParseNode<Expression>)>;

/// The key of an entry of a dictionary: a name, or an expression whose value
/// is the key.
#[derive(Debug, PartialEq)]
pub enum DictionaryKey {
    Ident(StringName),
    Expr(Expression),
}

/// What follows an expression: arguments of a call, an index, or the name of
/// a property.
#[derive(Debug, PartialEq)]
pub enum SuffixType {
    Call(Vec<ParseNode<Expression>>),
    Index(Box<ParseNode<Expression>>),
    Property(StringName),
}

/// An expression with one suffix.
#[derive(Debug, PartialEq)]
pub struct Suffix {
    pub node: Box<ParseNode<Expression>>,
    pub suffix: SuffixType,
}

/// The target of an assignment. No syntax produces it yet.
#[derive(Debug, PartialEq)]
pub struct Assign {
    pub left: Box<ParseNode<Expression>>,
}

/// Two operands joined by an operator.
#[derive(Debug, PartialEq)]
pub struct Binary {
    pub left: Box<ParseNode<Expression>>,
    pub right: Box<ParseNode<Expression>>,
    pub operator: SymbolKeyword,
}

/// A binary operator: a symbol, or one of the words `and` and `or`.
#[derive(Debug, Clone, Copy, PartialEq, Eq, Structural)]
pub enum SymbolKeyword {
    Symbol(Symbol),
    Keyword(Keyword),
}

/// An operand with a prefix operator.
#[derive(Debug, PartialEq)]
pub struct Unary {
    pub operand: Box<ParseNode<Expression>>,
    pub operator: Symbol,
}

/// A number as it was written: an integer or a real.
#[derive(Debug, Clone, Copy, PartialEq, Eq, Structural)]
pub enum Number {
    Int(u64),
    Real(RealLiteral),
}

/// A word: an identifier or a keyword.
#[derive(Debug, Clone, Copy, PartialEq, Eq, Structural)]
pub enum IdentKeyword {
    Ident(StringName),
    Keyword(Keyword),
}

/// The words that the language keeps for itself.
#[derive(Debug, Clone, Copy, PartialEq, Eq, Hash, Structural)]
pub enum Keyword {
    /// The word `none`.
    Nothing,
    True,
    False,
    Var,
    Func,
    If,
    Elif,
    Else,
    For,
    While,
    Break,
    Continue,
    OnBreak,
    OnContinue,
    And,
    Or,
}

/// The symbols of the language.
#[derive(Debug, Clone, Copy, PartialEq, Eq, Hash, Structural)]
pub enum Symbol {
    Add,
    Sub,
    Mul,
    Div,
    Mod,
    Pow,
    Not,
    And,
    Or,
    Xor,
    LeftShift,
    RightShift,
    Eq,
    NotEq,
    Greater,
    Less,
    GreaterEq,
    LessEq,
    LParenthesis,
    RParenthesis,
    LSquareBracket,
    RSquareBracket,
    LCurlyBracket,
    RCurlyBracket,
    Dot,
    Dots,
    Assign,
    Comma,
    Semicolon,
    Colon,
    LeftArrow,
    RightArrow,
}

/// No symbol is longer than this.
pub const MAX_SYMBOL_LENGTH: usize = 5;

/// The keyword that a word is, if it is one.
#[verifier::opaque]
pub open spec fn keyword_of(word: Seq<char>) -> Option<Keyword> {
    if word == "none"@ {
        Some(Keyword::Nothing)
    } else if word == "true"@ {
        Some(Keyword::True)
    } else if word == "false"@ {
        Some(Keyword::False)
    } else if word == "var"@ {
        Some(Keyword::Var)
    } else if word == "func"@ {
        Some(Keyword::Func)
    } else if word == "if"@ {
        Some(Keyword::If)
    } else if word == "elif"@ {
        Some(Keyword::Elif)
    } else if word == "else"@ {
        Some(Keyword::Else)
    } else if word == "while"@ {
        Some(Keyword::While)
    } else if word == "for"@ {
        Some(Keyword::For)
    } else if word == "break"@ {
        Some(Keyword::Break)
    } else if word == "continue"@ {
        Some(Keyword::Continue)
    } else if word == "onbreak"@ {
        Some(Keyword::OnBreak)
    } else if word == "oncontinue"@ {
        Some(Keyword::OnContinue)
    } else if word == "and"@ {
        Some(Keyword::And)
    } else if word == "or"@ {
        Some(Keyword::Or)
    } else {
        None
    }
}

/// The symbol that a run of characters is, if it is one.
#[verifier::opaque]
pub open spec fn symbol_of(text: Seq<char>) -> Option<Symbol> {
    if text == "+"@ {
        Some(Symbol::Add)
    } else if text == "-"@ {
        Some(Symbol::Sub)
    } else if text == "*"@ {
        Some(Symbol::Mul)
    } else if text == "/"@ {
        Some(Symbol::Div)
    } else if text == "%"@ {
        Some(Symbol::Mod)
    } else if text == "**"@ {
        Some(Symbol::Pow)
    } else if text == "!"@ {
        Some(Symbol::Not)
    } else if text == "&"@ {
        Some(Symbol::And)
    } else if text == "|"@ {
        Some(Symbol::Or)
    } else if text == "^"@ {
        Some(Symbol::Xor)
    } else if text == "<<"@ {
        Some(Symbol::LeftShift)
    } else if text == ">>"@ {
        Some(Symbol::RightShift)
    } else if text == "=="@ {
        Some(Symbol::Eq)
    } else if text == "!="@ {
        Some(Symbol::NotEq)
    } else if text == ">"@ {
        Some(Symbol::Greater)
    } else if text == "<"@ {
        Some(Symbol::Less)
    } else if text == ">="@ {
        Some(Symbol::GreaterEq)
    } else if text == "<="@ {
        Some(Symbol::LessEq)
    } else if text == "("@ {
        Some(Symbol::LParenthesis)
    } else if text == ")"@ {
        Some(Symbol::RParenthesis)
    } else if text == "["@ {
        Some(Symbol::LSquareBracket)
    } else if text == "]"@ {
        Some(Symbol::RSquareBracket)
    } else if text == "{"@ {
        Some(Symbol::LCurlyBracket)
    } else if text == "}"@ {
        Some(Symbol::RCurlyBracket)
    } else if text == "."@ {
        Some(Symbol::Dot)
    } else if text == "..."@ {
        Some(Symbol::Dots)
    } else if text == "="@ {
        Some(Symbol::Assign)
    } else if text == ","@ {
        Some(Symbol::Comma)
    } else if text == ";"@ {
        Some(Symbol::Semicolon)
    } else if text == ":"@ {
        Some(Symbol::Colon)
    } else if text == "<-"@ {
        Some(Symbol::LeftArrow)
    } else if text == "->"@ {
        Some(Symbol::RightArrow)
    } else {
        None
    }
}

/// The characters of a text.
pub fn chars_of(text: &str) -> (chars: Vec<char>)
    ensures
        chars@ == text@,
{
    let mut chars: Vec<char> = Vec::new();
    for c in walk: text.chars()
        invariant
            walk.seq() == text@,
            chars@ == text@.take(walk.index() as int),
    {
        chars.push(c);
    }
    chars
}

/// Whether the characters spell the text.
pub fn spells(chars: &Vec<char>, text: &str) -> (same: bool)
    ensures
        same == (chars@ == text@),
{
    let n = text.unicode_len();
    if chars.len() != n {
        return false;
    }
    let mut i: usize = 0;
    while i < n
        invariant
            n == text@.len(),
            chars@.len() == n,
            i <= n,
            forall|k: int| 0 <= k < i ==> chars@[k] == text@[k],
        decreases n - i,
    {
        if chars[i] != text.get_char(i) {
            return false;
        }
        i = i + 1;
    }
    assert(chars@ =~= text@);
    true
}

impl Keyword {
    /// The keyword that the word is, or an error if it is none.
    pub fn try_from(value: &str) -> (r: Result<Keyword, ()>)
        ensures
            r == match keyword_of(value@) {
                Some(k) => Ok::<Keyword, ()>(k),
                None => Err::<Keyword, ()>(()),
            },
    {
        reveal(keyword_of);
        let word = chars_of(value);
        if spells(&word, "none") {
            Ok(Keyword::Nothing)
        } else if spells(&word, "true") {
            Ok(Keyword::True)
        } else if spells(&word, "false") {
            Ok(Keyword::False)
        } else if spells(&word, "var") {
            Ok(Keyword::Var)
        } else if spells(&word, "func") {
            Ok(Keyword::Func)
        } else if spells(&word, "if") {
            Ok(Keyword::If)
        } else if spells(&word, "elif") {
            Ok(Keyword::Elif)
        } else if spells(&word, "else") {
            Ok(Keyword::Else)
        } else if spells(&word, "while") {
            Ok(Keyword::While)
        } else if spells(&word, "for") {
            Ok(Keyword::For)
        } else if spells(&word, "break") {
            Ok(Keyword::Break)
        } else if spells(&word, "continue") {
            Ok(Keyword::Continue)
        } else if spells(&word, "onbreak") {
            Ok(Keyword::OnBreak)
        } else if spells(&word, "oncontinue") {
            Ok(Keyword::OnContinue)
        } else if spells(&word, "and") {
            Ok(Keyword::And)
        } else if spells(&word, "or") {
            Ok(Keyword::Or)
        } else {
            Err(())
        }
    }
}

impl Symbol {
    /// The symbol that the text is, or an error if it is none.
    pub fn try_from(symbol: &str) -> (r: Result<Symbol, ()>)
        ensures
            r == match symbol_of(symbol@) {
                Some(s) => Ok::<Symbol, ()>(s),
                None => Err::<Symbol, ()>(()),
            },
    {
        reveal(symbol_of);
        let text = chars_of(symbol);
        if spells(&text, "+") {
            Ok(Symbol::Add)
        } else if spells(&text, "-") {
            Ok(Symbol::Sub)
        } else if spells(&text, "*") {
            Ok(Symbol::Mul)
        } else if spells(&text, "/") {
            Ok(Symbol::Div)
        } else if spells(&text, "%") {
            Ok(Symbol::Mod)
        } else if spells(&text, "**") {
            Ok(Symbol::Pow)
        } else if spells(&text, "!") {
            Ok(Symbol::Not)
        } else if spells(&text, "&") {
            Ok(Symbol::And)
        } else if spells(&text, "|") {
            Ok(Symbol::Or)
        } else if spells(&text, "^") {
            Ok(Symbol::Xor)
        } else if spells(&text, "<<") {
            Ok(Symbol::LeftShift)
        } else if spells(&text, ">>") {
            Ok(Symbol::RightShift)
        } else if spells(&text, "==") {
            Ok(Symbol::Eq)
        } else if spells(&text, "!=") {
            Ok(Symbol::NotEq)
        } else if spells(&text, ">") {
            Ok(Symbol::Greater)
        } else if spells(&text, "<") {
            Ok(Symbol::Less)
        } else if spells(&text, ">=") {
            Ok(Symbol::GreaterEq)
        } else if spells(&text, "<=") {
            Ok(Symbol::LessEq)
        } else if spells(&text, "(") {
            Ok(Symbol::LParenthesis)
        } else if spells(&text, ")") {
            Ok(Symbol::RParenthesis)
        } else if spells(&text, "[") {
            Ok(Symbol::LSquareBracket)
        } else if spells(&text, "]") {
            Ok(Symbol::RSquareBracket)
        } else if spells(&text, "{") {
            Ok(Symbol::LCurlyBracket)
        } else if spells(&text, "}") {
            Ok(Symbol::RCurlyBracket)
        } else if spells(&text, ".") {
            Ok(Symbol::Dot)
        } else if spells(&text, "...") {
            Ok(Symbol::Dots)
        } else if spells(&text, "=") {
            Ok(Symbol::Assign)
        } else if spells(&text, ",") {
            Ok(Symbol::Comma)
        } else if spells(&text, ";") {
            Ok(Symbol::Semicolon)
        } else if spells(&text, ":") {
            Ok(Symbol::Colon)
        } else if spells(&text, "<-") {
            Ok(Symbol::LeftArrow)
        } else if spells(&text, "->") {
            Ok(Symbol::RightArrow)
        } else {
            Err(())
        }
    }
}

} // verus!
