//! Reading primary expressions: literals, variables, and the forms in
//! brackets.

use crate::parser::error::{Error, ErrorType};
use crate::parser::grammar;
use crate::parser::grammar::{lemma_trivia_end, lemma_word_advances, Parsed};
use crate::parser::parse_node::{DictionaryKey, Expression, Keyword, Number, ParseNode, Symbol};
use crate::parser::parser::Parser;
use crate::parser::syntax;
use crate::source::lemma_end_grows;
use crate::parser::view::{
    dictionary_entries_view, dictionary_entries_within, dictionary_entry_view,
    dictionary_entry_within, dictionary_key_within, expression_node_within, expression_nodes_view,
    expression_nodes_within, place_dictionary_entries, place_dictionary_entry,
    place_dictionary_key, place_expression_node, place_expression_nodes, DictionaryKeyView,
    ExpressionView, Spanned,
};
use std::ops::Range;
use vstd::prelude::*;

verus! {

/// A dictionary with its entries.
fn dictionary_node(
    range: Range<usize>,
    items: Vec<(ParseNode<DictionaryKey>, ParseNode<Expression>)>,
) -> (node: ParseNode<Expression>)
    ensures
        node@ == (Spanned {
            data: ExpressionView::Dictionary(dictionary_entries_view(items@)),
            start: range.start as nat,
            end: range.end as nat,
        }),
{
    ParseNode::new(range, Expression::Dictionary(items))
}

impl Parser {
    /// What a function that reads a list of expressions owes: the list that
    /// the grammar gives, with spans in bytes, and the cursor behind it.
    pub open spec fn lists(
        &self,
        before: &Parser,
        r: Result<Vec<ParseNode<Expression>>, Error>,
        want: Parsed<Seq<Spanned<ExpressionView>>>,
    ) -> bool {
        &&& self.follows(before)
        &&& match want {
            Parsed::Hit { value, next } => {
                &&& r matches Ok(items)
                &&& expression_nodes_view(items@) == place_expression_nodes(value, before.source())
                &&& expression_nodes_within(expression_nodes_view(items@), self.source().length)
                &&& items@.len() == value.len()
                &&& items@.len() > 0 ==> items@.last().range.end == before.source().end_of(
                    value.last().end,
                )
                &&& self.cursor() == next
            },
            Parsed::Miss => false,
            Parsed::Fail { error, start, end } => {
                &&& r matches Err(e)
                &&& e.error == error
                &&& e.range.start == before.source().start_of(start)
                &&& e.range.end == before.source().end_of(end)
            },
        }
    }

    /// Reads expressions parted by commas. Where no expression follows, the
    /// parser stays behind the trivia that stands there.
    pub fn arguments(&mut self) -> (r: Result<Vec<ParseNode<Expression>>, Error>)
        requires
            old(self).wf(),
        ensures
            final(self).lists(
                old(self),
                r,
                syntax::arguments(old(self).text(), old(self).cursor(), Seq::empty()),
            ),
        decreases old(self).left(), 132nat,
    {
        let ghost cs = self.text();
        let ghost src = self.source();
        let ghost goal = syntax::arguments(cs, self.cursor(), Seq::empty());
        let mut items: Vec<ParseNode<Expression>> = Vec::new();
        let ghost mut seen: Seq<Spanned<ExpressionView>> = Seq::empty();
        loop
            invariant
                self.wf(),
                self.source() == src,
                src == old(self).source(),
                cs == self.text(),
                self.iter.index() >= old(self).iter.index(),
                old(self).interner@.is_prefix_of(self.interner@),
                goal == syntax::arguments(cs, old(self).cursor(), Seq::empty()),
                syntax::arguments(cs, self.cursor(), seen) == goal,
                expression_nodes_view(items@) == place_expression_nodes(seen, src),
                expression_nodes_within(expression_nodes_view(items@), src.length),
                items@.len() == seen.len(),
                items@.len() > 0 ==> items@.last().range.end == src.end_of(seen.last().end),
            decreases self.left(),
        {
            let ghost here = self.cursor();
            let item = match self.expression() {
                Ok(Some(item)) => item,
                Ok(None) => {
                    return Ok(items);
                },
                Err(e) => {
                    return Err(e);
                },
            };
            let ghost before = items@;
            let ghost grown = seen.push(syntax::expression(cs, here)->value);
            items.push(item);
            proof {
                assert(expression_nodes_view(items@) =~= expression_nodes_view(before).push(item@));
                assert(place_expression_nodes(grown, src) =~= place_expression_nodes(seen, src).push(
                    place_expression_node(syntax::expression(cs, here)->value, src),
                ));
                seen = grown;
            }
            if self.symbol_eq(Symbol::Comma).is_none() {
                return Ok(items);
            }
        }
    }

    /// Reads a primary expression. Where none stands, the parser stays behind
    /// the trivia.
    pub fn primary(&mut self) -> (r: Result<Option<ParseNode<Expression>>, Error>)
        requires
            old(self).wf(),
        ensures
            final(self).yields(old(self), r, syntax::primary(old(self).text(), old(self).cursor())),
        decreases old(self).left(), 3nat,
    {
        let saved = self.iter.position();
        match self.number()? {
            Some(number) => {
                let data = match number.data {
                    Number::Int(i) => Expression::Int(i),
                    Number::Real(r) => Expression::Real(r),
                };
                return Ok(Some(ParseNode::new(number.range, data)));
            },
            None => {},
        }
        self.iter.seek(saved);
        match self.string()? {
            Some(string) => {
                return Ok(Some(ParseNode::new(string.range, Expression::String(string.data))));
            },
            None => {},
        }
        self.iter.seek(saved);
        match self.char()? {
            Some(character) => {
                return Ok(Some(ParseNode::new(character.range, Expression::Char(character.data))));
            },
            None => {},
        }
        self.iter.seek(saved);
        match self.named()? {
            Some(found) => Ok(Some(found)),
            None => {
                self.skip();
                Ok(None)
            },
        }
    }

    /// Reads a word that is a literal: `true`, `false` or `none`.
    pub fn word_literal(&mut self) -> (r: Result<Option<ParseNode<Expression>>, Error>)
        requires
            old(self).wf(),
        ensures
            final(self).offers(
                old(self),
                r,
                syntax::word_literal(old(self).text(), old(self).cursor()),
            ),
    {
        let saved = self.iter.position();
        proof {
            lemma_word_advances(old(self).text(), old(self).cursor());
        }
        match self.keyword() {
            Some(word) => {
                match word.data {
                    Keyword::True => Ok(Some(ParseNode::new(word.range, Expression::Bool(true)))),
                    Keyword::False => Ok(Some(ParseNode::new(word.range, Expression::Bool(false)))),
                    Keyword::Nothing => Ok(Some(ParseNode::new(word.range, Expression::Nothing))),
                    _ => {
                        self.iter.seek(saved);
                        Ok(None)
                    },
                }
            },
            None => Ok(None),
        }
    }

    /// Reads a variable. The name `_` cannot be read.
    pub fn variable(&mut self) -> (r: Result<Option<ParseNode<Expression>>, Error>)
        requires
            old(self).wf(),
        ensures
            final(self).offers(
                old(self),
                r,
                syntax::variable(old(self).text(), old(self).cursor()),
            ),
    {
        let saved = self.iter.position();
        self.skip();
        let first = self.iter.position();
        proof {
            lemma_trivia_end(old(self).text(), old(self).iter.index());
            lemma_word_advances(old(self).text(), old(self).cursor());
            lemma_word_advances(self.text(), self.cursor());
        }
        match self.ident() {
            Some(name) => {
                let behind = self.iter.position();
                if self.is_discard(first, behind) {
                    Err(Error::new(name.range, ErrorType::UnderscoreVariable))
                } else {
                    Ok(Some(ParseNode::new(name.range, Expression::Variable(name.data))))
                }
            },
            None => {
                self.iter.seek(saved);
                Ok(None)
            },
        }
    }

    /// Reads a primary expression that is no number, string or character: a
    /// literal word, a variable, or a form in brackets.
    pub fn named(&mut self) -> (r: Result<Option<ParseNode<Expression>>, Error>)
        requires
            old(self).wf(),
        ensures
            final(self).offers(old(self), r, syntax::named(old(self).text(), old(self).cursor())),
        decreases old(self).left(), 2nat,
    {
        match self.word_literal()? {
            Some(literal) => {
                return Ok(Some(literal));
            },
            None => {},
        }
        match self.variable()? {
            Some(variable) => {
                return Ok(Some(variable));
            },
            None => {},
        }
        self.bracketed()
    }

    /// Reads an expression in parentheses, an array or a dictionary.
    pub fn bracketed(&mut self) -> (r: Result<Option<ParseNode<Expression>>, Error>)
        requires
            old(self).wf(),
        ensures
            final(self).offers(
                old(self),
                r,
                syntax::bracketed(old(self).text(), old(self).cursor()),
            ),
        decreases old(self).left(), 1nat,
    {
        match self.grouping()? {
            Some(group) => {
                return Ok(Some(group));
            },
            None => {},
        }
        match self.array()? {
            Some(array) => {
                return Ok(Some(array));
            },
            None => {},
        }
        self.dictionary()
    }

    /// Reads an expression in parentheses.
    pub fn grouping(&mut self) -> (r: Result<Option<ParseNode<Expression>>, Error>)
        requires
            old(self).wf(),
        ensures
            final(self).offers(old(self), r, syntax::grouping(old(self).text(), old(self).cursor())),
        decreases old(self).left(), 0nat,
    {
        let opener = match self.symbol_eq(Symbol::LParenthesis) {
            Some(opener) => opener,
            None => {
                return Ok(None);
            },
        };
        let ghost inside = self.iter.index();
        let inner = match self.expression()? {
            Some(inner) => inner,
            None => {
                return Err(Error::new(opener.range, ErrorType::ExpectedExpr));
            },
        };
        let closing = match self.symbol_eq(Symbol::RParenthesis) {
            Some(closing) => closing,
            None => {
                return Err(
                    Error::new(opener.range.start..inner.range.end, ErrorType::ExpectedRParen),
                );
            },
        };
        proof {
            lemma_end_grows(self.source(), inside, self.iter.index());
        }
        Ok(
            Some(
                ParseNode::new(
                    opener.range.start..closing.range.end,
                    Expression::Grouping(Box::new(inner)),
                ),
            ),
        )
    }

    /// Reads an array.
    pub fn array(&mut self) -> (r: Result<Option<ParseNode<Expression>>, Error>)
        requires
            old(self).wf(),
        ensures
            final(self).offers(old(self), r, syntax::array(old(self).text(), old(self).cursor())),
        decreases old(self).left(), 0nat,
    {
        let opener = match self.symbol_eq(Symbol::LSquareBracket) {
            Some(opener) => opener,
            None => {
                return Ok(None);
            },
        };
        let ghost inside = self.iter.index();
        let items = self.arguments()?;
        let closing = match self.symbol_eq(Symbol::RSquareBracket) {
            Some(closing) => closing,
            None => {
                let end = if items.len() > 0 {
                    items[items.len() - 1].range.end
                } else {
                    opener.range.end
                };
                return Err(Error::new(opener.range.start..end, ErrorType::ExpectedRSquare));
            },
        };
        proof {
            lemma_end_grows(self.source(), inside, self.iter.index());
        }
        Ok(Some(ParseNode::new(opener.range.start..closing.range.end, Expression::Array(items))))
    }

    /// What a function that reads the key of an entry owes.
    pub open spec fn keys(
        &self,
        before: &Parser,
        r: Result<Option<ParseNode<DictionaryKey>>, Error>,
        want: Parsed<Spanned<DictionaryKeyView>>,
    ) -> bool {
        &&& self.follows(before)
        &&& match want {
            Parsed::Hit { value, next } => {
                &&& r matches Ok(Some(key))
                &&& key@ == (Spanned {
                    data: place_dictionary_key(value.data, before.source()),
                    start: before.source().start_of(value.start),
                    end: before.source().end_of(value.end),
                })
                &&& dictionary_key_within(key@.data, self.source().length)
                &&& key@.start < key@.end == self.source().end_of(self.iter.index())
                &&& self.cursor() == next
                &&& self.iter.index() > before.iter.index()
            },
            Parsed::Miss => r matches Ok(None) && self.cursor() == before.cursor(),
            Parsed::Fail { error, start, end } => {
                &&& r matches Err(e)
                &&& e.error == error
                &&& e.range.start == before.source().start_of(start)
                &&& e.range.end == before.source().end_of(end)
            },
        }
    }

    /// What a function that reads an entry of a dictionary owes.
    pub open spec fn pairs(
        &self,
        before: &Parser,
        r: Result<Option<(ParseNode<DictionaryKey>, ParseNode<Expression>)>, Error>,
        want: Parsed<(Spanned<DictionaryKeyView>, Spanned<ExpressionView>)>,
    ) -> bool {
        &&& self.follows(before)
        &&& match want {
            Parsed::Hit { value, next } => {
                &&& r matches Ok(Some(pair))
                &&& dictionary_entry_view(pair) == place_dictionary_entry(value, before.source())
                &&& dictionary_entry_within(dictionary_entry_view(pair), self.source().length)
                &&& pair.1.range.end == self.source().end_of(self.iter.index())
                &&& self.cursor() == next
                &&& self.iter.index() > before.iter.index()
            },
            Parsed::Miss => r matches Ok(None) && self.cursor() == before.cursor(),
            Parsed::Fail { error, start, end } => {
                &&& r matches Err(e)
                &&& e.error == error
                &&& e.range.start == before.source().start_of(start)
                &&& e.range.end == before.source().end_of(end)
            },
        }
    }

    /// What a function that reads the entries of a dictionary owes.
    pub open spec fn pair_lists(
        &self,
        before: &Parser,
        r: Result<Vec<(ParseNode<DictionaryKey>, ParseNode<Expression>)>, Error>,
        want: Parsed<Seq<(Spanned<DictionaryKeyView>, Spanned<ExpressionView>)>>,
    ) -> bool {
        &&& self.follows(before)
        &&& match want {
            Parsed::Hit { value, next } => {
                &&& r matches Ok(items)
                &&& dictionary_entries_view(items@) == place_dictionary_entries(
                    value,
                    before.source(),
                )
                &&& dictionary_entries_within(dictionary_entries_view(items@), self.source().length)
                &&& items@.len() == value.len()
                &&& items@.len() > 0 ==> items@.last().1.range.end == before.source().end_of(
                    value.last().1.end,
                )
                &&& self.cursor() == next
            },
            Parsed::Miss => false,
            Parsed::Fail { error, start, end } => {
                &&& r matches Err(e)
                &&& e.error == error
                &&& e.range.start == before.source().start_of(start)
                &&& e.range.end == before.source().end_of(end)
            },
        }
    }

    /// Reads the key of an entry: a name, or an expression in square brackets.
    pub fn entry_key(&mut self) -> (r: Result<Option<ParseNode<DictionaryKey>>, Error>)
        requires
            old(self).wf(),
        ensures
            final(self).keys(old(self), r, syntax::entry_key(old(self).text(), old(self).cursor())),
        decreases old(self).left(), 132nat,
    {
        match self.symbol_eq(Symbol::LSquareBracket) {
            Some(opener) => {
                let ghost inside = self.iter.index();
                let inner = match self.expression()? {
                    Some(inner) => inner,
                    None => {
                        return Err(Error::new(opener.range, ErrorType::ExpectedExpr));
                    },
                };
                let closing = match self.symbol_eq(Symbol::RSquareBracket) {
                    Some(closing) => closing,
                    None => {
                        return Err(
                            Error::new(
                                opener.range.start..inner.range.end,
                                ErrorType::ExpectedRSquare,
                            ),
                        );
                    },
                };
                proof {
                    lemma_end_grows(self.source(), inside, self.iter.index());
                }
                Ok(
                    Some(
                        ParseNode::new(
                            opener.range.start..closing.range.end,
                            DictionaryKey::Expr(inner.data),
                        ),
                    ),
                )
            },
            None => {
                match self.ident() {
                    Some(name) => Ok(
                        Some(ParseNode::new(name.range, DictionaryKey::Ident(name.data))),
                    ),
                    None => Ok(None),
                }
            },
        }
    }

    /// Reads the colon and the value that follow the key of an entry.
    pub fn entry_value(&mut self, key: &ParseNode<DictionaryKey>) -> (r: Result<
        ParseNode<Expression>,
        Error,
    >)
        requires
            old(self).wf(),
        ensures
            final(self).follows(old(self)),
            forall|seen: Spanned<DictionaryKeyView>|
                #![trigger syntax::entry_value(old(self).text(), old(self).cursor(), seen)]
                key.range.start == old(self).source().start_of(seen.start) && key.range.end == old(
                    self,
                ).source().end_of(seen.end) ==> match syntax::entry_value(
                    old(self).text(),
                    old(self).cursor(),
                    seen,
                ) {
                    Parsed::Hit { value, next } => {
                        &&& r matches Ok(node)
                        &&& value.0 == seen
                        &&& node@ == place_expression_node(value.1, old(self).source())
                        &&& expression_node_within(node@, final(self).source().length)
                        &&& node@.end == final(self).source().end_of(final(self).iter.index())
                        &&& final(self).cursor() == next
                        &&& final(self).iter.index() > old(self).iter.index()
                    },
                    Parsed::Miss => false,
                    Parsed::Fail { error, start, end } => {
                        &&& r matches Err(e)
                        &&& e.error == error
                        &&& e.range.start == old(self).source().start_of(start)
                        &&& e.range.end == old(self).source().end_of(end)
                    },
                },
        decreases old(self).left(), 132nat,
    {
        let colon = match self.symbol_eq(Symbol::Colon) {
            Some(colon) => colon,
            None => {
                return Err(Error::new(key.range.start..key.range.end, ErrorType::ExpectedColon));
            },
        };
        match self.expression()? {
            Some(value) => Ok(value),
            None => Err(Error::new(key.range.start..colon.range.end, ErrorType::ExpectedExpr)),
        }
    }

    /// Reads an entry of a dictionary: a key, a colon and a value.
    pub fn entry(&mut self) -> (r: Result<
        Option<(ParseNode<DictionaryKey>, ParseNode<Expression>)>,
        Error,
    >)
        requires
            old(self).wf(),
        ensures
            final(self).pairs(old(self), r, syntax::entry(old(self).text(), old(self).cursor())),
        decreases old(self).left(), 133nat,
    {
        let ghost cs = self.text();
        let key = match self.entry_key()? {
            Some(key) => key,
            None => {
                return Ok(None);
            },
        };
        let ghost seen = syntax::entry_key(cs, old(self).cursor())->value;
        let ghost behind = self.cursor();
        let value = self.entry_value(&key)?;
        assert(syntax::entry_value(cs, behind, seen) is Hit);
        Ok(Some((key, value)))
    }

    /// Reads the entries of a dictionary, parted by commas.
    pub fn entries(&mut self) -> (r: Result<
        Vec<(ParseNode<DictionaryKey>, ParseNode<Expression>)>,
        Error,
    >)
        requires
            old(self).wf(),
        ensures
            final(self).pair_lists(
                old(self),
                r,
                syntax::entries(old(self).text(), old(self).cursor(), Seq::empty()),
            ),
        decreases old(self).left(), 134nat,
    {
        let ghost cs = self.text();
        let ghost src = self.source();
        let ghost goal = syntax::entries(cs, self.cursor(), Seq::empty());
        let mut items: Vec<(ParseNode<DictionaryKey>, ParseNode<Expression>)> = Vec::new();
        let ghost mut seen: Seq<(Spanned<DictionaryKeyView>, Spanned<ExpressionView>)> =
            Seq::empty();
        loop
            invariant
                self.wf(),
                self.source() == src,
                src == old(self).source(),
                cs == self.text(),
                self.iter.index() >= old(self).iter.index(),
                old(self).interner@.is_prefix_of(self.interner@),
                goal == syntax::entries(cs, old(self).cursor(), Seq::empty()),
                syntax::entries(cs, self.cursor(), seen) == goal,
                dictionary_entries_view(items@) == place_dictionary_entries(seen, src),
                dictionary_entries_within(dictionary_entries_view(items@), src.length),
                items@.len() == seen.len(),
                items@.len() > 0 ==> items@.last().1.range.end == src.end_of(seen.last().1.end),
            decreases self.left(),
        {
            let ghost here = self.cursor();
            let pair = match self.entry() {
                Ok(Some(pair)) => pair,
                Ok(None) => {
                    return Ok(items);
                },
                Err(e) => {
                    return Err(e);
                },
            };
            let ghost before = items@;
            let ghost grown = seen.push(syntax::entry(cs, here)->value);
            proof {
                assert(dictionary_entries_view(before.push(pair)) =~= dictionary_entries_view(
                    before,
                ).push(dictionary_entry_view(pair)));
                assert(place_dictionary_entries(grown, src) =~= place_dictionary_entries(
                    seen,
                    src,
                ).push(place_dictionary_entry(syntax::entry(cs, here)->value, src)));
                seen = grown;
            }
            items.push(pair);
            if self.symbol_eq(Symbol::Comma).is_none() {
                return Ok(items);
            }
        }
    }

    /// Reads a dictionary.
    pub fn dictionary(&mut self) -> (r: Result<Option<ParseNode<Expression>>, Error>)
        requires
            old(self).wf(),
        ensures
            final(self).offers(
                old(self),
                r,
                syntax::dictionary(old(self).text(), old(self).cursor()),
            ),
        decreases old(self).left(), 0nat,
    {
        let opener = match self.symbol_eq(Symbol::LCurlyBracket) {
            Some(opener) => opener,
            None => {
                return Ok(None);
            },
        };
        let ghost inside = self.iter.index();
        let items = self.entries()?;
        let closing = match self.symbol_eq(Symbol::RCurlyBracket) {
            Some(closing) => closing,
            None => {
                let end = if items.len() > 0 {
                    items[items.len() - 1].1.range.end
                } else {
                    opener.range.end
                };
                return Err(Error::new(opener.range.start..end, ErrorType::ExpectedRCurly));
            },
        };
        proof {
            lemma_end_grows(self.source(), inside, self.iter.index());
        }
        Ok(Some(dictionary_node(opener.range.start..closing.range.end, items)))
    }
}

} // verus!
