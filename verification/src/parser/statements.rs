//! Reading statements: blocks, conditions and loops.

use crate::parser::error::{Error, ErrorType};
use crate::parser::grammar::Parsed;
use crate::parser::parse_node::{
    Block, Declaration, ElseBlock, Expression, IfStatement, Keyword, ParseNode, Statement, Symbol,
    WhileStatement,
};
use crate::parser::parser::Parser;
use crate::parser::program;
use crate::parser::view::{
    block_node_within, else_node_within, expression_node_within, if_within, outcome, place,
    optional_block_within, place_block_node, place_else_node, place_expression_node, place_if,
    place_optional_block, place_statement_node, place_statements, place_while,
    statement_node_within, statements_view, statements_within, while_within, BlockView,
    ElseBlockView, ExpressionView, IfStatementView, Spanned, StatementView, WhileStatementView,
};
use crate::source::{lemma_end_grows, Stream};
use std::ops::Range;
use vstd::prelude::*;

verus! {

/// The view of a piece that may be missing.
pub open spec fn option_view<T: View>(piece: Option<ParseNode<T>>) -> Option<Spanned<T::V>> {
    match piece {
        Some(p) => Some(p@),
        None => None,
    }
}

/// A statement that was read, with all its spans in bytes of the source.
pub open spec fn placed_statement(read: Parsed<Spanned<StatementView>>, src: Stream) -> Parsed<
    Spanned<StatementView>,
> {
    match read {
        Parsed::Hit { value, next } => Parsed::Hit { value: place_statement_node(value, src), next },
        Parsed::Miss => Parsed::Miss,
        Parsed::Fail { error, start, end } => Parsed::Fail {
            error,
            start: src.start_of(start),
            end: src.end_of(end),
        },
    }
}

/// A block that was read, with all its spans in bytes of the source.
pub open spec fn placed_block(read: Parsed<Spanned<BlockView>>, src: Stream) -> Parsed<
    Spanned<BlockView>,
> {
    match read {
        Parsed::Hit { value, next } => Parsed::Hit { value: place_block_node(value, src), next },
        Parsed::Miss => Parsed::Miss,
        Parsed::Fail { error, start, end } => Parsed::Fail {
            error,
            start: src.start_of(start),
            end: src.end_of(end),
        },
    }
}

/// An `if` that was read, with all its spans in bytes of the source.
pub open spec fn placed_if(read: Parsed<Spanned<IfStatementView>>, src: Stream) -> Parsed<
    Spanned<IfStatementView>,
> {
    match read {
        Parsed::Hit { value, next } => Parsed::Hit {
            value: Spanned {
                data: place_if(value.data, src),
                start: src.start_of(value.start),
                end: src.end_of(value.end),
            },
            next,
        },
        Parsed::Miss => Parsed::Miss,
        Parsed::Fail { error, start, end } => Parsed::Fail {
            error,
            start: src.start_of(start),
            end: src.end_of(end),
        },
    }
}

/// A `while` that was read, with all its spans in bytes of the source.
pub open spec fn placed_while(read: Parsed<Spanned<WhileStatementView>>, src: Stream) -> Parsed<
    Spanned<WhileStatementView>,
> {
    match read {
        Parsed::Hit { value, next } => Parsed::Hit {
            value: Spanned {
                data: place_while(value.data, src),
                start: src.start_of(value.start),
                end: src.end_of(value.end),
            },
            next,
        },
        Parsed::Miss => Parsed::Miss,
        Parsed::Fail { error, start, end } => Parsed::Fail {
            error,
            start: src.start_of(start),
            end: src.end_of(end),
        },
    }
}

/// A block with its statements.
fn block_node(range: Range<usize>, statements: Vec<ParseNode<Statement>>) -> (node: ParseNode<Block>)
    ensures
        node@ == (Spanned {
            data: BlockView { statements: statements_view(statements@) },
            start: range.start as nat,
            end: range.end as nat,
        }),
{
    ParseNode::new(range, Block { statements })
}

/// The same block under another range.
fn block_under(range: Range<usize>, block: ParseNode<Block>) -> (node: ParseNode<Block>)
    ensures
        node@ == (Spanned { data: block@.data, start: range.start as nat, end: range.end as nat }),
{
    ParseNode::new(range, block.data)
}

/// The same statement under another range.
fn statement_under(range: Range<usize>, statement: ParseNode<Statement>) -> (node: ParseNode<
    Statement,
>)
    ensures
        node@ == (Spanned {
            data: statement@.data,
            start: range.start as nat,
            end: range.end as nat,
        }),
{
    ParseNode::new(range, statement.data)
}

/// An `if` with its parts.
fn if_node(
    range: Range<usize>,
    condition: ParseNode<Expression>,
    met_block: ParseNode<Block>,
    else_block: Option<ParseNode<ElseBlock>>,
) -> (node: ParseNode<IfStatement>)
    ensures
        node@ == (Spanned {
            data: IfStatementView {
                condition: condition@,
                met_block: met_block@,
                else_block: option_view(else_block),
            },
            start: range.start as nat,
            end: range.end as nat,
        }),
{
    ParseNode::new(range, IfStatement { condition, met_block, else_block })
}

/// An `elif` with its parts: an `if` that stands for the case that the
/// condition before it does not hold.
fn elif_node(
    range: Range<usize>,
    condition: ParseNode<Expression>,
    met_block: ParseNode<Block>,
    else_block: Option<ParseNode<ElseBlock>>,
) -> (node: ParseNode<ElseBlock>)
    ensures
        node@ == (Spanned {
            data: ElseBlockView::If(
                Box::new(
                    IfStatementView {
                        condition: condition@,
                        met_block: met_block@,
                        else_block: option_view(else_block),
                    },
                ),
            ),
            start: range.start as nat,
            end: range.end as nat,
        }),
{
    ParseNode::new(
        range,
        ElseBlock::If(Box::new(IfStatement { condition, met_block, else_block })),
    )
}

/// The block of an `else`.
fn else_node(block: ParseNode<Block>) -> (node: ParseNode<ElseBlock>)
    ensures
        node@ == (Spanned {
            data: ElseBlockView::Block(block@.data),
            start: block@.start,
            end: block@.end,
        }),
{
    ParseNode::new(block.range, ElseBlock::Block(block.data))
}

/// A `while` with its parts.
fn while_node(
    range: Range<usize>,
    condition: ParseNode<Expression>,
    loop_block: ParseNode<Block>,
    on_break: Option<ParseNode<Block>>,
    on_continue: Option<ParseNode<Block>>,
) -> (node: ParseNode<WhileStatement>)
    ensures
        node@ == (Spanned {
            data: WhileStatementView {
                condition: condition@,
                loop_block: loop_block@,
                on_break: option_view(on_break),
                on_continue: option_view(on_continue),
            },
            start: range.start as nat,
            end: range.end as nat,
        }),
{
    ParseNode::new(range, WhileStatement { condition, loop_block, on_break, on_continue })
}

/// The statement that a declaration is.
fn declaration_statement(node: ParseNode<Declaration>) -> (s: ParseNode<Statement>)
    ensures
        s@ == (Spanned {
            data: StatementView::Declaration(node@.data),
            start: node@.start,
            end: node@.end,
        }),
{
    ParseNode::new(node.range, Statement::Declaration(node.data))
}

/// The statement that an `if` is.
fn if_statement_statement(node: ParseNode<IfStatement>) -> (s: ParseNode<Statement>)
    ensures
        s@ == (Spanned { data: StatementView::If(node@.data), start: node@.start, end: node@.end }),
{
    ParseNode::new(node.range, Statement::If(node.data))
}

/// The statement that a `while` is.
fn while_statement_statement(node: ParseNode<WhileStatement>) -> (s: ParseNode<Statement>)
    ensures
        s@ == (Spanned {
            data: StatementView::While(node@.data),
            start: node@.start,
            end: node@.end,
        }),
{
    ParseNode::new(node.range, Statement::While(node.data))
}

/// The statement that a block is.
fn block_statement(node: ParseNode<Block>) -> (s: ParseNode<Statement>)
    ensures
        s@ == (Spanned {
            data: StatementView::Block(node@.data),
            start: node@.start,
            end: node@.end,
        }),
{
    ParseNode::new(node.range, Statement::Block(node.data))
}

/// The statement that an expression is.
fn expression_statement(node: ParseNode<Expression>) -> (s: ParseNode<Statement>)
    ensures
        s@ == (Spanned {
            data: StatementView::Expression(node@.data),
            start: node@.start,
            end: node@.end,
        }),
{
    ParseNode::new(node.range, Statement::Expression(node.data))
}

impl Parser {
    /// What a function that reads a statement owes. Where it found nothing it
    /// left the parser behind the trivia.
    pub open spec fn states(
        &self,
        before: &Parser,
        r: Result<Option<ParseNode<Statement>>, Error>,
        want: Parsed<Spanned<StatementView>>,
    ) -> bool {
        &&& self.finds(
            before,
            outcome(r, self.cursor()),
            placed_statement(want, before.source()),
        )
        &&& r matches Ok(Some(node)) ==> statement_node_within(node@, self.source().length)
    }

    /// What a function that reads a block owes.
    pub open spec fn blocks(
        &self,
        before: &Parser,
        r: Result<Option<ParseNode<Block>>, Error>,
        want: Parsed<Spanned<BlockView>>,
    ) -> bool {
        &&& self.delivers(before, outcome(r, self.cursor()), placed_block(want, before.source()))
        &&& r matches Ok(Some(node)) ==> block_node_within(node@, self.source().length)
    }

    /// What a function that reads statements one after the other owes.
    pub open spec fn statement_lists(
        &self,
        before: &Parser,
        r: Result<Vec<ParseNode<Statement>>, Error>,
        want: Parsed<Seq<Spanned<StatementView>>>,
    ) -> bool {
        &&& self.follows(before)
        &&& match want {
            Parsed::Hit { value, next } => {
                &&& r matches Ok(items)
                &&& statements_view(items@) == place_statements(value, before.source())
                &&& statements_within(statements_view(items@), self.source().length)
                &&& items@.len() == value.len()
                &&& items@.len() > 0 ==> items@.last().range.end == before.source().end_of(
                    value.last().end,
                )
                &&& self.cursor() == next
            },
            Parsed::Miss => false,
            Parsed::Fail { error, start, end } => {
                &&& r matches Err(e)
                &&& e.error == error
                &&& e.range.start == before.source().start_of(start)
                &&& e.range.end == before.source().end_of(end)
            },
        }
    }

    /// Whether a semicolon must follow the statement.
    pub fn requires_semicolon(statement: &Statement) -> (b: bool)
        ensures
            b == program::requires_semicolon(statement@),
    {
        match statement {
            Statement::Expression(_) => true,
            Statement::Declaration(declaration) => match declaration {
                Declaration::Var(_) => true,
                Declaration::Func(_) => false,
            },
            _ => false,
        }
    }

    /// Reads statements one after the other, as far as they go, and the trivia
    /// behind the last of them.
    pub fn statements(&mut self) -> (r: Result<Vec<ParseNode<Statement>>, Error>)
        requires
            old(self).wf(),
        ensures
            final(self).statement_lists(
                old(self),
                r,
                program::statements(old(self).text(), old(self).cursor(), Seq::empty()),
            ),
        decreases old(self).left(), 8nat,
    {
        let ghost cs = self.text();
        let ghost src = self.source();
        let ghost goal = program::statements(cs, self.cursor(), Seq::empty());
        let mut items: Vec<ParseNode<Statement>> = Vec::new();
        let ghost mut seen: Seq<Spanned<StatementView>> = Seq::empty();
        loop
            invariant
                self.wf(),
                self.source() == src,
                src == old(self).source(),
                cs == self.text(),
                self.iter.index() >= old(self).iter.index(),
                old(self).interner@.is_prefix_of(self.interner@),
                goal == program::statements(cs, old(self).cursor(), Seq::empty()),
                program::statements(cs, self.cursor(), seen) == goal,
                statements_view(items@) == place_statements(seen, src),
                statements_within(statements_view(items@), src.length),
                items@.len() == seen.len(),
                items@.len() > 0 ==> items@.last().range.end == src.end_of(seen.last().end),
            decreases self.left(),
        {
            let ghost here = self.cursor();
            let item = match self.terminated() {
                Ok(Some(item)) => item,
                Ok(None) => {
                    return Ok(items);
                },
                Err(e) => {
                    return Err(e);
                },
            };
            let ghost before = items@;
            let ghost grown = seen.push(program::terminated(cs, here)->value);
            items.push(item);
            proof {
                assert(statements_view(items@) =~= statements_view(before).push(item@));
                seen = grown;
            }
        }
    }

    /// Reads a statement with the semicolon that ends it, where it needs one.
    pub fn terminated(&mut self) -> (r: Result<Option<ParseNode<Statement>>, Error>)
        requires
            old(self).wf(),
        ensures
            final(self).states(
                old(self),
                r,
                program::terminated(old(self).text(), old(self).cursor()),
            ),
        decreases old(self).left(), 7nat,
    {
        let statement = match self.statement()? {
            Some(statement) => statement,
            None => {
                return Ok(None);
            },
        };
        if Self::requires_semicolon(&statement.data) {
            let ghost behind = self.iter.index();
            let semicolon = match self.symbol_eq(Symbol::Semicolon) {
                Some(semicolon) => semicolon,
                None => {
                    return Err(Error::new(statement.range, ErrorType::ExpectedSemicolon));
                },
            };
            proof {
                lemma_end_grows(self.source(), behind, self.iter.index());
            }
            Ok(Some(statement_under(statement.range.start..semicolon.range.end, statement)))
        } else {
            Ok(Some(statement))
        }
    }

    /// Reads a statement: a declaration, an `if`, a `while`, a block or an
    /// expression. Where none stands, the parser stays behind the trivia.
    pub fn statement(&mut self) -> (r: Result<Option<ParseNode<Statement>>, Error>)
        requires
            old(self).wf(),
        ensures
            final(self).states(
                old(self),
                r,
                program::statement(old(self).text(), old(self).cursor()),
            ),
        decreases old(self).left(), 6nat,
    {
        match self.declaration()? {
            Some(declaration) => Ok(Some(declaration_statement(declaration))),
            None => self.branching(),
        }
    }

    /// Reads a statement that is no declaration.
    pub fn branching(&mut self) -> (r: Result<Option<ParseNode<Statement>>, Error>)
        requires
            old(self).wf(),
        ensures
            final(self).states(
                old(self),
                r,
                program::branching(old(self).text(), old(self).cursor()),
            ),
        decreases old(self).left(), 5nat,
    {
        match self.if_statement()? {
            Some(condition) => {
                return Ok(Some(if_statement_statement(condition)));
            },
            None => {},
        }
        match self.while_statement()? {
            Some(repeat) => {
                return Ok(Some(while_statement_statement(repeat)));
            },
            None => {},
        }
        self.plain()
    }

    /// Reads a statement that starts with no keyword: a block or an
    /// expression.
    pub fn plain(&mut self) -> (r: Result<Option<ParseNode<Statement>>, Error>)
        requires
            old(self).wf(),
        ensures
            final(self).states(old(self), r, program::plain(old(self).text(), old(self).cursor())),
        decreases old(self).left(), 1nat,
    {
        match self.block()? {
            Some(block) => {
                return Ok(Some(block_statement(block)));
            },
            None => {},
        }
        match self.expression()? {
            Some(expression) => Ok(Some(expression_statement(expression))),
            None => Ok(None),
        }
    }

    /// Reads a block: statements in curly brackets.
    pub fn block(&mut self) -> (r: Result<Option<ParseNode<Block>>, Error>)
        requires
            old(self).wf(),
        ensures
            final(self).blocks(old(self), r, program::block(old(self).text(), old(self).cursor())),
        decreases old(self).left(), 0nat,
    {
        let opener = match self.symbol_eq(Symbol::LCurlyBracket) {
            Some(opener) => opener,
            None => {
                return Ok(None);
            },
        };
        let ghost inside = self.iter.index();
        let items = self.statements()?;
        let closing = match self.symbol_eq(Symbol::RCurlyBracket) {
            Some(closing) => closing,
            None => {
                let end = if items.len() > 0 {
                    items[items.len() - 1].range.end
                } else {
                    opener.range.end
                };
                return Err(Error::new(opener.range.start..end, ErrorType::ExpectedRCurly));
            },
        };
        proof {
            lemma_end_grows(self.source(), inside, self.iter.index());
        }
        Ok(Some(block_node(opener.range.start..closing.range.end, items)))
    }

    /// What a function that reads a condition and its block owes.
    pub open spec fn guards(
        &self,
        before: &Parser,
        r: Result<(ParseNode<Expression>, ParseNode<Block>), Error>,
        want: Parsed<(Spanned<ExpressionView>, Spanned<BlockView>)>,
    ) -> bool {
        &&& self.follows(before)
        &&& match want {
            Parsed::Hit { value, next } => {
                &&& r matches Ok(pair)
                &&& pair.0@ == place_expression_node(value.0, before.source())
                &&& pair.1@ == place_block_node(value.1, before.source())
                &&& expression_node_within(pair.0@, self.source().length)
                &&& block_node_within(pair.1@, self.source().length)
                &&& pair.1@.end == self.source().end_of(self.iter.index())
                &&& self.cursor() == next
                &&& self.iter.index() > before.iter.index()
            },
            Parsed::Miss => false,
            Parsed::Fail { error, start, end } => {
                &&& r matches Err(e)
                &&& e.error == error
                &&& e.range.start == before.source().start_of(start)
                &&& e.range.end == before.source().end_of(end)
            },
        }
    }

    /// Reads a condition and the block that it guards, behind a keyword.
    pub(crate) fn guarded(&mut self, word: &ParseNode<Keyword>, Ghost(read): Ghost<Spanned<Keyword>>) -> (r:
        Result<(ParseNode<Expression>, ParseNode<Block>), Error>)
        requires
            old(self).wf(),
            word@ == place(read, old(self).source()),
        ensures
            final(self).guards(
                old(self),
                r,
                program::guarded(old(self).text(), old(self).cursor(), read),
            ),
        decreases old(self).left(), 1nat,
    {
        let condition = match self.expression()? {
            Some(condition) => condition,
            None => {
                return Err(Error::new(word.range.start..word.range.end, ErrorType::ExpectedExpr));
            },
        };
        let body = match self.block()? {
            Some(body) => body,
            None => {
                return Err(
                    Error::new(word.range.start..condition.range.end, ErrorType::ExpectedBlock),
                );
            },
        };
        Ok((condition, body))
    }

    /// What a function that reads a keyword and its block owes.
    pub open spec fn hooks(
        &self,
        before: &Parser,
        r: Result<Option<ParseNode<Block>>, Error>,
        want: Parsed<Spanned<BlockView>>,
    ) -> bool {
        &&& self.follows(before)
        &&& match want {
            Parsed::Hit { value, next } => {
                &&& r matches Ok(Some(node))
                &&& node@ == place_block_node(value, before.source())
                &&& block_node_within(node@, self.source().length)
                &&& node@.start < node@.end == self.source().end_of(self.iter.index())
                &&& self.cursor() == next
                &&& self.iter.index() > before.iter.index()
            },
            Parsed::Miss => r matches Ok(None) && self.cursor() == before.cursor(),
            Parsed::Fail { error, start, end } => {
                &&& r matches Err(e)
                &&& e.error == error
                &&& e.range.start == before.source().start_of(start)
                &&& e.range.end == before.source().end_of(end)
            },
        }
    }

    /// Reads a keyword and the block that must follow it. Where the keyword
    /// does not stand there, the parser stays where it was.
    pub fn hook(&mut self, word: Keyword) -> (r: Result<Option<ParseNode<Block>>, Error>)
        requires
            old(self).wf(),
        ensures
            final(self).hooks(
                old(self),
                r,
                program::hook(old(self).text(), old(self).cursor(), word),
            ),
        decreases old(self).left(), 1nat,
    {
        let found = match self.keyword_eq(word) {
            Some(found) => found,
            None => {
                return Ok(None);
            },
        };
        let ghost inside = self.iter.index();
        let block = match self.block()? {
            Some(block) => block,
            None => {
                return Err(Error::new(found.range, ErrorType::ExpectedBlock));
            },
        };
        proof {
            lemma_end_grows(self.source(), inside, self.iter.index());
        }
        Ok(Some(block_under(found.range.start..block.range.end, block)))
    }

    /// Reads a block after `onbreak`.
    pub fn onbreak_block(&mut self) -> (r: Result<Option<ParseNode<Block>>, Error>)
        requires
            old(self).wf(),
        ensures
            final(self).hooks(
                old(self),
                r,
                program::hook(old(self).text(), old(self).cursor(), Keyword::OnBreak),
            ),
        decreases old(self).left(), 2nat,
    {
        self.hook(Keyword::OnBreak)
    }

    /// Reads a block after `oncontinue`.
    pub fn oncontinue_block(&mut self) -> (r: Result<Option<ParseNode<Block>>, Error>)
        requires
            old(self).wf(),
        ensures
            final(self).hooks(
                old(self),
                r,
                program::hook(old(self).text(), old(self).cursor(), Keyword::OnContinue),
            ),
        decreases old(self).left(), 2nat,
    {
        self.hook(Keyword::OnContinue)
    }

    /// What a function that reads what follows the block of an `if` owes.
    pub open spec fn elses(
        &self,
        before: &Parser,
        r: Result<Option<ParseNode<ElseBlock>>, Error>,
        want: Parsed<Option<Spanned<ElseBlockView>>>,
    ) -> bool {
        &&& self.follows(before)
        &&& match want {
            Parsed::Hit { value, next } => {
                &&& r matches Ok(found)
                &&& self.cursor() == next
                &&& match value {
                    Some(read) => {
                        &&& found matches Some(node)
                        &&& node@ == place_else_node(read, before.source())
                        &&& else_node_within(node@, self.source().length)
                        &&& node@.end == self.source().end_of(self.iter.index())
                        &&& self.iter.index() > before.iter.index()
                    },
                    None => found is None && self.iter.index() == before.iter.index(),
                }
            },
            Parsed::Miss => false,
            Parsed::Fail { error, start, end } => {
                &&& r matches Err(e)
                &&& e.error == error
                &&& e.range.start == before.source().start_of(start)
                &&& e.range.end == before.source().end_of(end)
            },
        }
    }

    /// Reads what follows the block of an `if`: `elif` with a condition and a
    /// block, any number of times, then `else` with a block, if there is one.
    pub fn else_chain(&mut self) -> (r: Result<Option<ParseNode<ElseBlock>>, Error>)
        requires
            old(self).wf(),
        ensures
            final(self).elses(
                old(self),
                r,
                program::else_chain(old(self).text(), old(self).cursor()),
            ),
        decreases old(self).left(), 2nat,
    {
        let ghost cs = self.text();
        match self.keyword_eq(Keyword::Elif) {
            Some(word) => {
                let ghost read = crate::parser::grammar::keyword_eq(
                    cs,
                    old(self).cursor(),
                    Keyword::Elif,
                )->value;
                let ghost inside = self.iter.index();
                let (condition, body) = self.guarded(&word, Ghost(read))?;
                let otherwise = self.else_chain()?;
                let end = match &otherwise {
                    Some(node) => node.range.end,
                    None => body.range.end,
                };
                proof {
                    lemma_end_grows(self.source(), inside, self.iter.index());
                }
                Ok(Some(elif_node(word.range.start..end, condition, body, otherwise)))
            },
            None => {
                match self.hook(Keyword::Else)? {
                    Some(block) => Ok(Some(else_node(block))),
                    None => Ok(None),
                }
            },
        }
    }

    /// Reads an `if` with all that belongs to it.
    pub fn if_statement(&mut self) -> (r: Result<Option<ParseNode<IfStatement>>, Error>)
        requires
            old(self).wf(),
        ensures
            final(self).delivers(
                old(self),
                outcome(r, final(self).cursor()),
                placed_if(
                    program::if_statement(old(self).text(), old(self).cursor()),
                    old(self).source(),
                ),
            ),
            r matches Ok(Some(node)) ==> if_within(node@.data, final(self).source().length),
        decreases old(self).left(), 2nat,
    {
        let ghost cs = self.text();
        let word = match self.keyword_eq(Keyword::If) {
            Some(word) => word,
            None => {
                return Ok(None);
            },
        };
        let ghost read = crate::parser::grammar::keyword_eq(cs, old(self).cursor(), Keyword::If)->value;
        let ghost inside = self.iter.index();
        let (condition, body) = self.guarded(&word, Ghost(read))?;
        let otherwise = self.else_chain()?;
        let end = match &otherwise {
            Some(node) => node.range.end,
            None => body.range.end,
        };
        proof {
            lemma_end_grows(self.source(), inside, self.iter.index());
        }
        Ok(Some(if_node(word.range.start..end, condition, body, otherwise)))
    }

    /// What a function that reads what follows the block of a `while` owes.
    pub open spec fn hook_pairs(
        &self,
        before: &Parser,
        r: Result<(Option<ParseNode<Block>>, Option<ParseNode<Block>>, usize), Error>,
        want: Parsed<program::Hooks>,
    ) -> bool {
        &&& self.follows(before)
        &&& match want {
            Parsed::Hit { value, next } => {
                &&& r matches Ok(found)
                &&& option_view(found.0) == place_optional_block(value.on_break, before.source())
                &&& option_view(found.1) == place_optional_block(
                    value.on_continue,
                    before.source(),
                )
                &&& optional_block_within(option_view(found.0), self.source().length)
                &&& optional_block_within(option_view(found.1), self.source().length)
                &&& found.2 == before.source().end_of(value.end)
                &&& self.cursor() == next
            },
            Parsed::Miss => false,
            Parsed::Fail { error, start, end } => {
                &&& r matches Err(e)
                &&& e.error == error
                &&& e.range.start == before.source().start_of(start)
                &&& e.range.end == before.source().end_of(end)
            },
        }
    }

    /// Reads the hook that may follow a first one.
    pub(crate) fn second_hook(
        &mut self,
        first: ParseNode<Block>,
        first_is_break: bool,
        Ghost(read): Ghost<Spanned<BlockView>>,
    ) -> (r: Result<(Option<ParseNode<Block>>, Option<ParseNode<Block>>, usize), Error>)
        requires
            old(self).wf(),
            first@ == place_block_node(read, old(self).source()),
            block_node_within(first@, old(self).source().length),
            first@.end == old(self).source().end_of(old(self).iter.index()),
        ensures
            final(self).hook_pairs(
                old(self),
                r,
                program::second_hook(old(self).text(), old(self).cursor(), read, first_is_break),
            ),
            r matches Ok(found) ==> found.2 == final(self).source().end_of(final(self).iter.index()),
        decreases old(self).left(), 2nat,
    {
        let word = if first_is_break {
            Keyword::OnContinue
        } else {
            Keyword::OnBreak
        };
        match self.hook(word)? {
            Some(second) => {
                let end = second.range.end;
                if first_is_break {
                    Ok((Some(first), Some(second), end))
                } else {
                    Ok((Some(second), Some(first), end))
                }
            },
            None => {
                let end = first.range.end;
                if first_is_break {
                    Ok((Some(first), None, end))
                } else {
                    Ok((None, Some(first), end))
                }
            },
        }
    }

    /// Reads what may follow the block of a `while`, which ended at `end`:
    /// the block for its end, the block for its next round, and the end of
    /// the last that was read.
    pub(crate) fn while_hooks(&mut self, end: usize, Ghost(read_end): Ghost<nat>) -> (r: Result<
        (Option<ParseNode<Block>>, Option<ParseNode<Block>>, usize),
        Error,
    >)
        requires
            old(self).wf(),
            end == old(self).source().end_of(read_end),
            end == old(self).source().end_of(old(self).iter.index()),
        ensures
            final(self).hook_pairs(
                old(self),
                r,
                program::while_hooks(old(self).text(), old(self).cursor(), read_end),
            ),
            r matches Ok(found) ==> found.2 == final(self).source().end_of(final(self).iter.index()),
        decreases old(self).left(), 3nat,
    {
        let ghost cs = self.text();
        let ghost here = self.cursor();
        match self.hook(Keyword::OnBreak)? {
            Some(first) => {
                let ghost read = program::hook(cs, here, Keyword::OnBreak)->value;
                return self.second_hook(first, true, Ghost(read));
            },
            None => {},
        }
        match self.hook(Keyword::OnContinue)? {
            Some(first) => {
                let ghost read = program::hook(cs, here, Keyword::OnContinue)->value;
                self.second_hook(first, false, Ghost(read))
            },
            None => Ok((None, None, end)),
        }
    }

    /// Reads a `while` with all that belongs to it.
    pub fn while_statement(&mut self) -> (r: Result<Option<ParseNode<WhileStatement>>, Error>)
        requires
            old(self).wf(),
        ensures
            final(self).delivers(
                old(self),
                outcome(r, final(self).cursor()),
                placed_while(
                    program::while_statement(old(self).text(), old(self).cursor()),
                    old(self).source(),
                ),
            ),
            r matches Ok(Some(node)) ==> while_within(node@.data, final(self).source().length),
        decreases old(self).left(), 4nat,
    {
        let ghost cs = self.text();
        let word = match self.keyword_eq(Keyword::While) {
            Some(word) => word,
            None => {
                return Ok(None);
            },
        };
        let ghost read = crate::parser::grammar::keyword_eq(
            cs,
            old(self).cursor(),
            Keyword::While,
        )->value;
        let ghost inside = self.iter.index();
        let ghost here = self.cursor();
        let (condition, body) = self.guarded(&word, Ghost(read))?;
        let ghost read_end = program::guarded(cs, here, read)->value.1.end;
        let (on_break, on_continue, end) = self.while_hooks(body.range.end, Ghost(read_end))?;
        proof {
            lemma_end_grows(self.source(), inside, self.iter.index());
        }
        Ok(Some(while_node(word.range.start..end, condition, body, on_break, on_continue)))
    }
}

} // verus!
