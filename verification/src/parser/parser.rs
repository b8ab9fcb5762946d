//! The parser's state: the stream of the source, a cursor in it, and the
//! table of interned names.

use crate::parser::grammar::{lemma_trivia_end, trivia_end, Cursor, Parsed};
use crate::parser::error::{
    law_line_endings, message_of, shown, DisplayError, Error, ErrorType,
};
use crate::parser::program;
use crate::parser::parse_node::{Expression, ParseNode, Statement};
use crate::parser::view::{
    expression_node_within, outcome, placed_expression, statements_view, statements_within,
    ExpressionView, Spanned,
};
use crate::source::{stream_of, SourceIter, Stream};
use crate::string_name::Interner;
use vstd::prelude::*;

verus! {

/// A parser over one source. Its position is the position of `iter`; a
/// function that finds nothing puts it back.
pub struct Parser {
    /// The stream of the source, with the position at which the parser stands.
    pub iter: SourceIter,
    /// The names that were interned.
    pub interner: Interner,
}

impl Parser {
    /// The stream and the table of names are well formed.
    pub open spec fn wf(&self) -> bool {
        &&& self.iter.wf()
        &&& self.interner.wf()
    }

    /// The stream of the source.
    pub open spec fn source(&self) -> Stream {
        self.iter.stream()
    }

    /// The characters of the stream.
    pub open spec fn text(&self) -> Seq<char> {
        self.iter.stream().chars
    }

    /// Where the parser stands.
    pub open spec fn cursor(&self) -> Cursor {
        Cursor { at: self.iter.index(), names: self.interner@ }
    }

    /// The cursor behind the trivia that starts where the parser stands.
    pub open spec fn skipped(&self) -> Cursor {
        Cursor { at: trivia_end(self.text(), self.iter.index()), names: self.interner@ }
    }

    /// What every parsing function keeps: the source stays, the parser does
    /// not move back, and the names that were interned keep their places.
    pub open spec fn follows(&self, before: &Parser) -> bool {
        &&& self.wf()
        &&& self.source() == before.source()
        &&& self.iter.index() >= before.iter.index()
        &&& before.interner@.is_prefix_of(self.interner@)
    }

    /// A parsing function did what the grammar says: it returned `got`, with
    /// spans in bytes, where the grammar gives `want`. A piece that it found is
    /// not empty, and the parser stands right behind it.
    pub open spec fn reads<V>(
        &self,
        before: &Parser,
        got: Parsed<Spanned<V>>,
        want: Parsed<Spanned<V>>,
    ) -> bool {
        &&& self.follows(before)
        &&& got == want
        &&& got is Hit ==> self.iter.index() > before.iter.index()
        &&& got matches Parsed::Hit { value, .. } ==> value.start < value.end
            == self.source().end_of(self.iter.index())
    }

    /// A parsing function that goes back did what the grammar says, and where
    /// it found nothing it left the parser as it was.
    pub open spec fn delivers<V>(
        &self,
        before: &Parser,
        got: Parsed<Spanned<V>>,
        want: Parsed<Spanned<V>>,
    ) -> bool {
        &&& self.reads(before, got, want)
        &&& got is Miss ==> self.cursor() == before.cursor()
    }

    /// A parsing function that skips trivia and does not go back did what the
    /// grammar says, and where it found nothing it left the parser behind the
    /// trivia, with the names as they were.
    pub open spec fn finds<V>(
        &self,
        before: &Parser,
        got: Parsed<Spanned<V>>,
        want: Parsed<Spanned<V>>,
    ) -> bool {
        &&& self.reads(before, got, want)
        &&& got is Miss ==> self.cursor() == before.skipped()
    }

    /// Number of characters from where the parser stands to the end of the
    /// stream.
    pub open spec fn left(&self) -> nat {
        (self.text().len() - self.iter.index()) as nat
    }

    /// A function that reads an expression did what the grammar says, and
    /// every span in what it found lies in the source. Where it found nothing
    /// it left the parser behind the trivia.
    pub open spec fn yields(
        &self,
        before: &Parser,
        r: Result<Option<ParseNode<Expression>>, Error>,
        want: Parsed<Spanned<ExpressionView>>,
    ) -> bool {
        &&& self.finds(before, outcome(r, self.cursor()), placed_expression(want, before.source()))
        &&& r matches Ok(Some(node)) ==> expression_node_within(node@, self.source().length)
    }

    /// As `yields`, for a function that goes back: where it found nothing it
    /// left the parser as it was.
    pub open spec fn offers(
        &self,
        before: &Parser,
        r: Result<Option<ParseNode<Expression>>, Error>,
        want: Parsed<Spanned<ExpressionView>>,
    ) -> bool {
        &&& self.delivers(
            before,
            outcome(r, self.cursor()),
            placed_expression(want, before.source()),
        )
        &&& r matches Ok(Some(node)) ==> expression_node_within(node@, self.source().length)
    }

    /// A parser at the start of a source, with an empty table of names.
    pub fn new(source: &str) -> (parser: Self)
        ensures
            parser.wf(),
            parser.source() == stream_of(source@),
            parser.source().length == vstd::utf8::encode_utf8(source@).len(),
            parser.cursor() == (Cursor { at: 0, names: Seq::empty() }),
    {
        proof {
            crate::source::lemma_stream_length(source@, source@.len());
            assert(source@.take(source@.len() as int) =~= source@);
        }
        Self { iter: SourceIter::new(source), interner: Interner::new() }
    }

    /// Reads a whole program: statements up to the end of the source. Anything
    /// but trivia behind the last statement is an error. In a program that
    /// was read, every node's span is in order and lies in the source.
    pub fn parse(&mut self) -> (r: Result<Vec<ParseNode<Statement>>, Error>)
        requires
            old(self).wf(),
        ensures
            final(self).statement_lists(
                old(self),
                r,
                program::program(old(self).text(), old(self).cursor()),
            ),
            r matches Ok(nodes) ==> statements_within(
                statements_view(nodes@),
                old(self).source().length,
            ),
    {
        let items = self.statements()?;
        self.skip();
        proof {
            lemma_trivia_end(self.text(), self.iter.index());
        }
        let rest = self.iter.position();
        if rest < self.iter.len() {
            let range = self.span(rest, rest + 1);
            Err(Error::new(range, ErrorType::ExpectedEOF))
        } else {
            Ok(items)
        }
    }
}

/// What is shown for a source: nothing if it is a program, else where its
/// first error is and what it is.
pub open spec fn reported(source: Seq<char>) -> Option<Seq<char>> {
    let src = stream_of(source);
    match program::program(src.chars, Cursor { at: 0, names: Seq::empty() }) {
        Parsed::Fail { error, start, end } => Some(
            shown(src, src.start_of(start), src.end_of(end), message_of(error)),
        ),
        _ => None,
    }
}

/// Reads a source as a program and shows its first error, if it has one.
pub fn report(source: &str) -> (r: Option<String>)
    ensures
        match reported(source@) {
            Some(text) => r matches Some(out) && out@ == text,
            None => r is None,
        },
{
    let mut parser = Parser::new(source);
    match parser.parse() {
        Ok(_) => None,
        Err(e) => Some(e.display(source)),
    }
}

/// Sources that differ only in how their lines end are reported alike: both
/// are programs, or both show the same line and column, the same message,
/// the same lines and the same carets.
pub proof fn law_report_line_endings(a: Seq<char>, b: Seq<char>)
    requires
        stream_of(a).chars == stream_of(b).chars,
    ensures
        reported(a) == reported(b),
{
    match program::program(stream_of(a).chars, Cursor { at: 0, names: Seq::empty() }) {
        Parsed::Fail { error, start, end } => {
            law_line_endings(a, b, start, end, message_of(error));
        },
        _ => {},
    }
}

} // verus!
