//! Reading expressions: operands joined by operators, level by level.

use crate::parser::error::{Error, ErrorType};
use crate::parser::grammar::{lemma_symbol_advances, Parsed};
use crate::parser::parse_node::{
    Binary, Expression, Keyword, ParseNode, Suffix, SuffixType, Symbol, SymbolKeyword, Unary,
};
use crate::parser::parser::Parser;
use crate::parser::syntax;
use crate::source::lemma_end_grows;
use crate::parser::view::{
    expression_node_within, found, place_expression_node, placed, ExpressionView, Spanned,
    SuffixTypeView,
};
use vstd::prelude::*;

verus! {

/// Whether a symbol is a binary operator of a level.
pub fn binds(level: u8, op: Symbol) -> (b: bool)
    ensures
        b == syntax::binds(level as nat, op),
{
    match level {
        0 => matches!(op, Symbol::Pow),
        1 => matches!(op, Symbol::Mul | Symbol::Div | Symbol::Mod),
        2 => matches!(op, Symbol::Add | Symbol::Sub),
        3 => matches!(op, Symbol::LeftShift | Symbol::RightShift),
        4 => matches!(op, Symbol::Less | Symbol::Greater | Symbol::LessEq | Symbol::GreaterEq),
        5 => matches!(op, Symbol::Eq | Symbol::NotEq),
        6 => matches!(op, Symbol::And),
        7 => matches!(op, Symbol::Xor),
        8 => matches!(op, Symbol::Or),
        _ => false,
    }
}

impl Parser {
    /// Whether a symbol can stand before `=` in a compound assignment.
    pub fn is_assign_operator(symbol: Symbol) -> (b: bool)
        ensures
            b == (symbol == Symbol::Add || symbol == Symbol::Sub || symbol == Symbol::Mul || symbol
                == Symbol::Div || symbol == Symbol::Mod || symbol == Symbol::LeftShift || symbol
                == Symbol::RightShift),
    {
        matches!(
            symbol,
            Symbol::Add | Symbol::Sub | Symbol::Mul | Symbol::Div | Symbol::Mod | Symbol::LeftShift | Symbol::RightShift
        )
    }

    /// Reads an expression. Where none stands, the parser stays behind the
    /// trivia.
    pub fn expression(&mut self) -> (r: Result<Option<ParseNode<Expression>>, Error>)
        requires
            old(self).wf(),
        ensures
            final(self).yields(
                old(self),
                r,
                syntax::expression(old(self).text(), old(self).cursor()),
            ),
        decreases old(self).left(), 131nat,
    {
        self.binary(10)
    }

    /// Reads an expression.
    pub fn operator(&mut self) -> (r: Result<Option<ParseNode<Expression>>, Error>)
        requires
            old(self).wf(),
        ensures
            final(self).yields(
                old(self),
                r,
                syntax::expression(old(self).text(), old(self).cursor()),
            ),
    {
        self.expression()
    }

    /// Reads operands joined by `or`.
    pub fn logical_or(&mut self) -> (r: Result<Option<ParseNode<Expression>>, Error>)
        requires
            old(self).wf(),
        ensures
            final(self).yields(
                old(self),
                r,
                syntax::binary(old(self).text(), old(self).cursor(), 10),
            ),
    {
        self.binary(10)
    }

    /// Reads operands joined by `and`.
    pub fn logical_and(&mut self) -> (r: Result<Option<ParseNode<Expression>>, Error>)
        requires
            old(self).wf(),
        ensures
            final(self).yields(
                old(self),
                r,
                syntax::binary(old(self).text(), old(self).cursor(), 9),
            ),
    {
        self.binary(9)
    }

    /// Reads operands joined by `|`.
    pub fn bitwise_or(&mut self) -> (r: Result<Option<ParseNode<Expression>>, Error>)
        requires
            old(self).wf(),
        ensures
            final(self).yields(
                old(self),
                r,
                syntax::binary(old(self).text(), old(self).cursor(), 8),
            ),
    {
        self.binary(8)
    }

    /// Reads operands joined by `^`.
    pub fn bitwise_xor(&mut self) -> (r: Result<Option<ParseNode<Expression>>, Error>)
        requires
            old(self).wf(),
        ensures
            final(self).yields(
                old(self),
                r,
                syntax::binary(old(self).text(), old(self).cursor(), 7),
            ),
    {
        self.binary(7)
    }

    /// Reads operands joined by `&`.
    pub fn bitwise_and(&mut self) -> (r: Result<Option<ParseNode<Expression>>, Error>)
        requires
            old(self).wf(),
        ensures
            final(self).yields(
                old(self),
                r,
                syntax::binary(old(self).text(), old(self).cursor(), 6),
            ),
    {
        self.binary(6)
    }

    /// Reads operands joined by `==` and `!=`.
    pub fn equality(&mut self) -> (r: Result<Option<ParseNode<Expression>>, Error>)
        requires
            old(self).wf(),
        ensures
            final(self).yields(
                old(self),
                r,
                syntax::binary(old(self).text(), old(self).cursor(), 5),
            ),
    {
        self.binary(5)
    }

    /// Reads operands joined by `<`, `>`, `<=` and `>=`.
    pub fn comparison(&mut self) -> (r: Result<Option<ParseNode<Expression>>, Error>)
        requires
            old(self).wf(),
        ensures
            final(self).yields(
                old(self),
                r,
                syntax::binary(old(self).text(), old(self).cursor(), 4),
            ),
    {
        self.binary(4)
    }

    /// Reads operands joined by `<<` and `>>`.
    pub fn bit_shift(&mut self) -> (r: Result<Option<ParseNode<Expression>>, Error>)
        requires
            old(self).wf(),
        ensures
            final(self).yields(
                old(self),
                r,
                syntax::binary(old(self).text(), old(self).cursor(), 3),
            ),
    {
        self.binary(3)
    }

    /// Reads operands joined by `+` and `-`.
    pub fn addition(&mut self) -> (r: Result<Option<ParseNode<Expression>>, Error>)
        requires
            old(self).wf(),
        ensures
            final(self).yields(
                old(self),
                r,
                syntax::binary(old(self).text(), old(self).cursor(), 2),
            ),
    {
        self.binary(2)
    }

    /// Reads operands joined by `*`, `/` and `%`.
    pub fn multiplication(&mut self) -> (r: Result<Option<ParseNode<Expression>>, Error>)
        requires
            old(self).wf(),
        ensures
            final(self).yields(
                old(self),
                r,
                syntax::binary(old(self).text(), old(self).cursor(), 1),
            ),
    {
        self.binary(1)
    }

    /// Reads operands joined by `**`.
    pub fn power(&mut self) -> (r: Result<Option<ParseNode<Expression>>, Error>)
        requires
            old(self).wf(),
        ensures
            final(self).yields(
                old(self),
                r,
                syntax::binary(old(self).text(), old(self).cursor(), 0),
            ),
    {
        self.binary(0)
    }

    /// Reads a binary operator of a level. Where none stands, the parser goes
    /// back to where it was.
    pub fn operator_of(&mut self, level: u8) -> (r: Option<ParseNode<SymbolKeyword>>)
        requires
            old(self).wf(),
        ensures
            final(self).delivers(
                old(self),
                found(r, final(self).cursor()),
                placed(
                    syntax::operator(old(self).text(), old(self).cursor(), level as nat),
                    old(self).source(),
                ),
            ),
    {
        if level == 9 || level == 10 {
            let word = if level == 9 {
                Keyword::And
            } else {
                Keyword::Or
            };
            match self.keyword_eq(word) {
                Some(found) => Some(ParseNode::new(found.range, SymbolKeyword::Keyword(found.data))),
                None => None,
            }
        } else {
            let saved = self.iter.position();
            proof {
                lemma_symbol_advances(self.text(), self.cursor());
            }
            match self.symbol() {
                Some(found) => {
                    if binds(level, found.data) {
                        Some(ParseNode::new(found.range, SymbolKeyword::Symbol(found.data)))
                    } else {
                        self.iter.seek(saved);
                        None
                    }
                },
                None => {
                    self.iter.seek(saved);
                    None
                },
            }
        }
    }

    /// Reads what the operators of a level join.
    pub fn operand(&mut self, level: u8) -> (r: Result<Option<ParseNode<Expression>>, Error>)
        requires
            old(self).wf(),
            level <= 10,
        ensures
            final(self).yields(
                old(self),
                r,
                syntax::operand(old(self).text(), old(self).cursor(), level as nat),
            ),
        decreases old(self).left(), 10 * level + 28,
    {
        if level == 0 {
            self.suffix()
        } else if level == 1 {
            self.unary()
        } else {
            self.binary(level - 1)
        }
    }

    /// Reads operands of a level joined by its operators.
    pub fn binary(&mut self, level: u8) -> (r: Result<Option<ParseNode<Expression>>, Error>)
        requires
            old(self).wf(),
            level <= 10,
        ensures
            final(self).yields(
                old(self),
                r,
                syntax::binary(old(self).text(), old(self).cursor(), level as nat),
            ),
        decreases old(self).left(), 10 * level + 30,
    {
        let ghost cs = self.text();
        let ghost src = self.source();
        let ghost goal = syntax::binary(cs, self.cursor(), level as nat);
        let mut lhs = match self.operand(level)? {
            Some(first) => first,
            None => {
                return Ok(None);
            },
        };
        let ghost mut seen = syntax::operand(cs, old(self).cursor(), level as nat)->value;
        loop
            invariant
                self.wf(),
                self.source() == src,
                src == old(self).source(),
                cs == self.text(),
                level <= 10,
                self.iter.index() > old(self).iter.index(),
                old(self).interner@.is_prefix_of(self.interner@),
                goal == syntax::binary(cs, old(self).cursor(), level as nat),
                syntax::binary_rest(cs, self.cursor(), level as nat, seen) == goal,
                lhs@ == place_expression_node(seen, src),
                expression_node_within(lhs@, src.length),
                lhs@.start < lhs@.end == src.end_of(self.iter.index()),
            decreases self.left(),
        {
            let saved = self.iter.position();
            let op = match self.operator_of(level) {
                Some(op) => op,
                None => {
                    return Ok(Some(lhs));
                },
            };
            let ghost behind = self.cursor();
            let rhs = match self.operand(level) {
                Ok(Some(rhs)) => rhs,
                Ok(None) => {
                    return Err(Error::new(lhs.range.start..op.range.end, ErrorType::ExpectedExpr));
                },
                Err(e) => {
                    return Err(e);
                },
            };
            proof {
                seen = Spanned {
                    data: ExpressionView::Binary {
                        left: Box::new(seen),
                        right: Box::new(syntax::operand(cs, behind, level as nat)->value),
                        operator: op.data,
                    },
                    start: seen.start,
                    end: syntax::operand(cs, behind, level as nat)->value.end,
                };
            }
            proof {
                lemma_end_grows(src, saved as nat, self.iter.index());
            }
            let start = lhs.range.start;
            let end = rhs.range.end;
            lhs = ParseNode::new(
                start..end,
                Expression::Binary(
                    Binary { left: Box::new(lhs), right: Box::new(rhs), operator: op.data },
                ),
            );
        }
    }

    /// Reads an operand with its prefix operators.
    pub fn unary(&mut self) -> (r: Result<Option<ParseNode<Expression>>, Error>)
        requires
            old(self).wf(),
        ensures
            final(self).yields(old(self), r, syntax::unary(old(self).text(), old(self).cursor())),
        decreases old(self).left(), 35nat,
    {
        let saved = self.iter.position();
        proof {
            lemma_symbol_advances(self.text(), self.cursor());
        }
        match self.symbol() {
            Some(op) => {
                if matches!(op.data, Symbol::Not | Symbol::Add | Symbol::Sub) {
                    let ghost inside = self.iter.index();
                    match self.unary()? {
                        Some(inner) => {
                            proof {
                                lemma_end_grows(self.source(), inside, self.iter.index());
                            }
                            let start = op.range.start;
                            let end = inner.range.end;
                            Ok(
                                Some(
                                    ParseNode::new(
                                        start..end,
                                        Expression::Unary(
                                            Unary { operand: Box::new(inner), operator: op.data },
                                        ),
                                    ),
                                ),
                            )
                        },
                        None => {
                            self.iter.seek(saved);
                            self.skip();
                            Ok(None)
                        },
                    }
                } else {
                    self.iter.seek(saved);
                    self.binary(0)
                }
            },
            None => {
                self.iter.seek(saved);
                self.binary(0)
            },
        }
    }

    /// Reads a primary expression with its suffixes: properties, indices and
    /// calls.
    pub fn suffix(&mut self) -> (r: Result<Option<ParseNode<Expression>>, Error>)
        requires
            old(self).wf(),
        ensures
            final(self).yields(old(self), r, syntax::suffix(old(self).text(), old(self).cursor())),
        decreases old(self).left(), 5nat,
    {
        let ghost cs = self.text();
        let base = match self.primary()? {
            Some(base) => base,
            None => {
                return Ok(None);
            },
        };
        let ghost seen = syntax::primary(cs, old(self).cursor())->value;
        let node = self.suffix_rest(base, Ghost(seen))?;
        Ok(Some(node))
    }

    /// What a function that reads the suffixes behind an expression owes.
    pub open spec fn extends(
        &self,
        before: &Parser,
        r: Result<ParseNode<Expression>, Error>,
        want: Parsed<Spanned<ExpressionView>>,
    ) -> bool {
        &&& self.follows(before)
        &&& match want {
            Parsed::Hit { value, next } => {
                &&& r matches Ok(node)
                &&& node@ == place_expression_node(value, before.source())
                &&& expression_node_within(node@, self.source().length)
                &&& node@.start < node@.end == self.source().end_of(self.iter.index())
                &&& self.cursor() == next
            },
            Parsed::Miss => false,
            Parsed::Fail { error, start, end } => {
                &&& r matches Err(e)
                &&& e.error == error
                &&& e.range.start == before.source().start_of(start)
                &&& e.range.end == before.source().end_of(end)
            },
        }
    }

    /// What stands before a suffix: an expression that was read, with the
    /// parser right behind it.
    pub open spec fn stands_behind(
        &self,
        base: ParseNode<Expression>,
        seen: Spanned<ExpressionView>,
    ) -> bool {
        &&& self.wf()
        &&& base@ == place_expression_node(seen, self.source())
        &&& expression_node_within(base@, self.source().length)
        &&& base@.start < base@.end == self.source().end_of(self.iter.index())
    }

    /// Reads the suffixes that follow an expression.
    pub(crate) fn suffix_rest(
        &mut self,
        base: ParseNode<Expression>,
        Ghost(seen): Ghost<Spanned<ExpressionView>>,
    ) -> (r: Result<ParseNode<Expression>, Error>)
        requires
            old(self).stands_behind(base, seen),
        ensures
            final(self).extends(
                old(self),
                r,
                syntax::suffix_rest(old(self).text(), old(self).cursor(), seen),
            ),
        decreases old(self).left(), 4nat,
    {
        let saved = self.iter.position();
        proof {
            lemma_symbol_advances(self.text(), self.cursor());
        }
        let opener = match self.symbol() {
            Some(opener) => opener,
            None => {
                self.iter.seek(saved);
                return Ok(base);
            },
        };
        match opener.data {
            Symbol::Dot => self.property(base, Ghost(seen), opener, Ghost(*old(self))),
            Symbol::LSquareBracket => self.index(base, Ghost(seen), opener, Ghost(*old(self))),
            Symbol::LParenthesis => self.call(base, Ghost(seen), opener, Ghost(*old(self))),
            _ => {
                self.iter.seek(saved);
                Ok(base)
            },
        }
    }

    /// Where a suffix was opened: `base` stood before `start`, and the symbol
    /// `opener` was read there.
    pub open spec fn opened(
        &self,
        start: &Parser,
        base: ParseNode<Expression>,
        seen: Spanned<ExpressionView>,
        opener: ParseNode<Symbol>,
    ) -> bool {
        &&& start.stands_behind(base, seen)
        &&& self.delivers(
            start,
            found(Some(opener), self.cursor()),
            placed(crate::parser::grammar::symbol(start.text(), start.cursor()), start.source()),
        )
    }

    /// Reads the name behind the point of a property, and the suffixes that
    /// follow.
    pub(crate) fn property(
        &mut self,
        base: ParseNode<Expression>,
        Ghost(seen): Ghost<Spanned<ExpressionView>>,
        opener: ParseNode<Symbol>,
        Ghost(start): Ghost<Parser>,
    ) -> (r: Result<ParseNode<Expression>, Error>)
        requires
            old(self).opened(&start, base, seen, opener),
            opener.data == Symbol::Dot,
        ensures
            final(self).extends(&start, r, syntax::suffix_rest(start.text(), start.cursor(), seen)),
        decreases old(self).left(), 200nat,
    {
        let ghost inside = self.cursor();
        let name = match self.ident() {
            Some(name) => name,
            None => {
                return Err(Error::new(opener.range, ErrorType::ExpectedIdent));
            },
        };
        proof {
            lemma_end_grows(self.source(), start.iter.index(), self.iter.index());
        }
        let ghost grown = Spanned {
            data: ExpressionView::Suffix {
                node: Box::new(seen),
                suffix: SuffixTypeView::Property(name.data),
            },
            start: seen.start,
            end: crate::parser::grammar::ident(start.text(), inside)->value.end,
        };
        let node = ParseNode::new(
            base.range.start..name.range.end,
            Expression::Suffix(
                Suffix { node: Box::new(base), suffix: SuffixType::Property(name.data) },
            ),
        );
        self.suffix_rest(node, Ghost(grown))
    }

    /// Reads the index behind an opening square bracket, and the suffixes that
    /// follow.
    pub(crate) fn index(
        &mut self,
        base: ParseNode<Expression>,
        Ghost(seen): Ghost<Spanned<ExpressionView>>,
        opener: ParseNode<Symbol>,
        Ghost(start): Ghost<Parser>,
    ) -> (r: Result<ParseNode<Expression>, Error>)
        requires
            old(self).opened(&start, base, seen, opener),
            opener.data == Symbol::LSquareBracket,
        ensures
            final(self).extends(&start, r, syntax::suffix_rest(start.text(), start.cursor(), seen)),
        decreases old(self).left(), 200nat,
    {
        let ghost inside = self.cursor();
        let index = match self.expression()? {
            Some(index) => index,
            None => {
                return Err(Error::new(opener.range, ErrorType::ExpectedExpr));
            },
        };
        let ghost behind = self.cursor();
        let closing = match self.symbol_eq(Symbol::RSquareBracket) {
            Some(closing) => closing,
            None => {
                return Err(
                    Error::new(opener.range.start..index.range.end, ErrorType::ExpectedRSquare),
                );
            },
        };
        proof {
            lemma_end_grows(self.source(), start.iter.index(), self.iter.index());
        }
        let ghost grown = Spanned {
            data: ExpressionView::Suffix {
                node: Box::new(seen),
                suffix: SuffixTypeView::Index(
                    Box::new(syntax::expression(start.text(), inside)->value),
                ),
            },
            start: seen.start,
            end: crate::parser::grammar::symbol_eq(
                start.text(),
                behind,
                Symbol::RSquareBracket,
            )->value.end,
        };
        let node = ParseNode::new(
            base.range.start..closing.range.end,
            Expression::Suffix(
                Suffix { node: Box::new(base), suffix: SuffixType::Index(Box::new(index)) },
            ),
        );
        self.suffix_rest(node, Ghost(grown))
    }

    /// Reads the arguments behind an opening parenthesis, and the suffixes
    /// that follow.
    pub(crate) fn call(
        &mut self,
        base: ParseNode<Expression>,
        Ghost(seen): Ghost<Spanned<ExpressionView>>,
        opener: ParseNode<Symbol>,
        Ghost(start): Ghost<Parser>,
    ) -> (r: Result<ParseNode<Expression>, Error>)
        requires
            old(self).opened(&start, base, seen, opener),
            opener.data == Symbol::LParenthesis,
        ensures
            final(self).extends(&start, r, syntax::suffix_rest(start.text(), start.cursor(), seen)),
        decreases old(self).left(), 200nat,
    {
        let ghost inside = self.cursor();
        let args = self.arguments()?;
        let ghost behind = self.cursor();
        let closing = match self.symbol_eq(Symbol::RParenthesis) {
            Some(closing) => closing,
            None => {
                let end = if args.len() > 0 {
                    args[args.len() - 1].range.end
                } else {
                    opener.range.end
                };
                return Err(Error::new(opener.range.start..end, ErrorType::ExpectedRParen));
            },
        };
        proof {
            lemma_end_grows(self.source(), start.iter.index(), self.iter.index());
        }
        let ghost grown = Spanned {
            data: ExpressionView::Suffix {
                node: Box::new(seen),
                suffix: SuffixTypeView::Call(
                    syntax::arguments(start.text(), inside, Seq::empty())->value,
                ),
            },
            start: seen.start,
            end: crate::parser::grammar::symbol_eq(
                start.text(),
                behind,
                Symbol::RParenthesis,
            )->value.end,
        };
        let node = ParseNode::new(
            base.range.start..closing.range.end,
            Expression::Suffix(Suffix { node: Box::new(base), suffix: SuffixType::Call(args) }),
        );
        self.suffix_rest(node, Ghost(grown))
    }
}

} // verus!
