//! Reading declarations: patterns of names, variables and functions.

use crate::parser::error::{Error, ErrorType};
use crate::parser::grammar::{lemma_trivia_end, Parsed};
use crate::parser::parse_node::{
    Block, Declaration, Expression, FuncBlock, FuncDecl, Keyword, ParseNode, Symbol, VarDecl,
    VarNameType,
};
use crate::parser::parser::Parser;
use crate::parser::program;
use crate::parser::program::Names;
use crate::parser::view::{
    declaration_within, func_block_node_within, func_decl_within, outcome, parameters_within,
    pattern_within, place, place_declaration, place_func_block_node, place_func_decl,
    place_parameters, place_pattern_node, place_var_decl_node, placed, span_within,
    var_decl_node_within, DeclarationView, FuncBlockView, FuncDeclView, Spanned, VarDeclView,
    VarNameTypeView,
};
use crate::source::{lemma_end_grows, Stream};
use crate::string_name::StringName;
use std::ops::Range;
use vstd::prelude::*;

verus! {

/// A pattern that was read, with all its spans in bytes of the source.
pub open spec fn placed_pattern(read: Parsed<Spanned<VarNameTypeView>>, src: Stream) -> Parsed<
    Spanned<VarNameTypeView>,
> {
    match read {
        Parsed::Hit { value, next } => Parsed::Hit { value: place_pattern_node(value, src), next },
        Parsed::Miss => Parsed::Miss,
        Parsed::Fail { error, start, end } => Parsed::Fail {
            error,
            start: src.start_of(start),
            end: src.end_of(end),
        },
    }
}

/// A declaration of variables that was read, with all its spans in bytes of
/// the source.
pub open spec fn placed_var_decl(read: Parsed<Spanned<VarDeclView>>, src: Stream) -> Parsed<
    Spanned<VarDeclView>,
> {
    match read {
        Parsed::Hit { value, next } => Parsed::Hit { value: place_var_decl_node(value, src), next },
        Parsed::Miss => Parsed::Miss,
        Parsed::Fail { error, start, end } => Parsed::Fail {
            error,
            start: src.start_of(start),
            end: src.end_of(end),
        },
    }
}

/// The views of names.
pub open spec fn names_view(names: Seq<ParseNode<Option<StringName>>>) -> Seq<
    Spanned<Option<StringName>>,
> {
    names.map_values(|n: ParseNode<Option<StringName>>| n@)
}

/// Names with their spans in bytes of the source.
pub open spec fn place_names(names: Seq<Spanned<Option<StringName>>>, src: Stream) -> Seq<
    Spanned<Option<StringName>>,
> {
    names.map_values(|n: Spanned<Option<StringName>>| place(n, src))
}

/// Every name's span is in order and ends no later than `limit`.
pub open spec fn names_within(names: Seq<Spanned<Option<StringName>>>, limit: nat) -> bool {
    forall|i: int| 0 <= i < names.len() ==> span_within(#[trigger] names[i], limit)
}

/// A pattern of names in square brackets.
fn array_pattern(
    range: Range<usize>,
    start_names: Vec<ParseNode<Option<StringName>>>,
    end_names: Vec<ParseNode<Option<StringName>>>,
) -> (node: ParseNode<VarNameType>)
    ensures
        node@ == (Spanned {
            data: VarNameTypeView::Array {
                start_names: names_view(start_names@),
                end_names: names_view(end_names@),
            },
            start: range.start as nat,
            end: range.end as nat,
        }),
{
    ParseNode::new(range, VarNameType::Array { start_names, end_names })
}

/// A pattern with the value that it is bound to.
fn var_decl_node(
    range: Range<usize>,
    pattern: ParseNode<VarNameType>,
    value: Option<ParseNode<crate::parser::parse_node::Expression>>,
) -> (node: ParseNode<VarDecl>)
    ensures
        node@ == (Spanned {
            data: VarDeclView {
                pattern: pattern@,
                value: match value {
                    Some(v) => Some(v@),
                    None => None,
                },
            },
            start: range.start as nat,
            end: range.end as nat,
        }),
{
    ParseNode::new(range, VarDecl { pattern, value })
}

/// The list of names that the parser holds is the one that the grammar read.
pub open spec fn holds_names(
    src: Stream,
    opener: ParseNode<Symbol>,
    start_names: Seq<ParseNode<Option<StringName>>>,
    end_names: Seq<ParseNode<Option<StringName>>>,
    reached_dots: bool,
    end: usize,
    read: Names,
) -> bool {
    &&& opener@ == place(read.opener, src)
    &&& names_view(start_names) == place_names(read.start_names, src)
    &&& names_view(end_names) == place_names(read.end_names, src)
    &&& names_within(names_view(start_names), src.length)
    &&& names_within(names_view(end_names), src.length)
    &&& reached_dots == read.dotted
    &&& end == src.end_of(read.end)
    &&& opener.range.start < opener.range.end
}

impl Parser {
    /// What a function that reads a pattern owes.
    pub open spec fn patterns(
        &self,
        before: &Parser,
        r: Result<Option<ParseNode<VarNameType>>, Error>,
        want: Parsed<Spanned<VarNameTypeView>>,
    ) -> bool {
        &&& self.delivers(
            before,
            outcome(r, self.cursor()),
            placed_pattern(want, before.source()),
        )
        &&& r matches Ok(Some(node)) ==> pattern_within(node@.data, self.source().length)
    }

    /// What a function that reads a declaration of variables owes.
    pub open spec fn declares(
        &self,
        before: &Parser,
        r: Result<Option<ParseNode<VarDecl>>, Error>,
        want: Parsed<Spanned<VarDeclView>>,
    ) -> bool {
        &&& self.delivers(
            before,
            outcome(r, self.cursor()),
            placed_var_decl(want, before.source()),
        )
        &&& r matches Ok(Some(node)) ==> var_decl_node_within(node@, self.source().length)
    }

    /// Whether the characters from index `first` up to `behind` are the one
    /// character `_`.
    pub fn is_discard(&self, first: usize, behind: usize) -> (b: bool)
        requires
            self.wf(),
            first <= behind <= self.text().len(),
        ensures
            b == (self.text().subrange(first as int, behind as int) == "_"@),
    {
        proof {
            reveal_strlit("_");
        }
        let ghost word = self.text().subrange(first as int, behind as int);
        if behind - first == 1 && self.iter.char_at(first) == '_' {
            assert(word =~= "_"@);
            true
        } else {
            assert(word != "_"@) by {
                if word == "_"@ {
                    assert(word.len() == 1);
                    assert(word[0] == '_');
                }
            }
            false
        }
    }

    /// Reads a name that a declaration binds, or `_`.
    pub fn var_name(&mut self) -> (r: Result<Option<ParseNode<Option<StringName>>>, Error>)
        requires
            old(self).wf(),
        ensures
            final(self).delivers(
                old(self),
                outcome(r, final(self).cursor()),
                placed(program::var_name(old(self).text(), old(self).cursor()), old(self).source()),
            ),
    {
        let saved = self.iter.position();
        self.skip();
        proof {
            lemma_trivia_end(old(self).text(), old(self).iter.index());
            crate::parser::grammar::lemma_word_advances(old(self).text(), old(self).cursor());
            crate::parser::grammar::lemma_word_advances(self.text(), self.cursor());
        }
        let first = self.iter.position();
        match self.ident() {
            Some(name) => {
                let behind = self.iter.position();
                let data = if self.is_discard(first, behind) {
                    None
                } else {
                    Some(name.data)
                };
                Ok(Some(ParseNode::new(name.range, data)))
            },
            None => {
                self.iter.seek(saved);
                Ok(None)
            },
        }
    }

    /// Reads the closing bracket of a list of names.
    fn pattern_close(
        &mut self,
        opener: ParseNode<Symbol>,
        start_names: Vec<ParseNode<Option<StringName>>>,
        end_names: Vec<ParseNode<Option<StringName>>>,
        end: usize,
        Ghost(read): Ghost<Names>,
        Ghost(start): Ghost<Parser>,
    ) -> (r: Result<Option<ParseNode<VarNameType>>, Error>)
        requires
            old(self).follows(&start),
            old(self).iter.index() > start.iter.index(),
            holds_names(old(self).source(), opener, start_names@, end_names@, read.dotted, end, read),
            opener.range.end <= old(self).source().end_of(old(self).iter.index()),
        ensures
            final(self).follows(&start),
            final(self).iter.index() > start.iter.index(),
            outcome(r, final(self).cursor()) == placed_pattern(
                program::pattern_close(old(self).text(), old(self).cursor(), read),
                old(self).source(),
            ),
            r matches Ok(Some(node)) ==> pattern_within(node@.data, final(self).source().length)
                && node@.start < node@.end == final(self).source().end_of(final(self).iter.index()),
            !(r matches Ok(None)),
    {
        let ghost src = self.source();
        let ghost at = self.iter.index();
        match self.symbol_eq(Symbol::RSquareBracket) {
            Some(closing) => {
                proof {
                    lemma_end_grows(src, at, self.iter.index());
                }
                Ok(Some(array_pattern(opener.range.start..closing.range.end, start_names, end_names)))
            },
            None => Err(Error::new(opener.range.start..end, ErrorType::ExpectedRSquare)),
        }
    }

    /// Reads the rest of a list of names, behind an item.
    fn pattern_comma(
        &mut self,
        opener: ParseNode<Symbol>,
        start_names: Vec<ParseNode<Option<StringName>>>,
        end_names: Vec<ParseNode<Option<StringName>>>,
        reached_dots: bool,
        end: usize,
        Ghost(read): Ghost<Names>,
        Ghost(start): Ghost<Parser>,
    ) -> (r: Result<Option<ParseNode<VarNameType>>, Error>)
        requires
            old(self).follows(&start),
            old(self).iter.index() > start.iter.index(),
            holds_names(
                old(self).source(),
                opener,
                start_names@,
                end_names@,
                reached_dots,
                end,
                read,
            ),
            opener.range.end <= old(self).source().end_of(old(self).iter.index()),
        ensures
            final(self).follows(&start),
            final(self).iter.index() > start.iter.index(),
            outcome(r, final(self).cursor()) == placed_pattern(
                program::pattern_comma(old(self).text(), old(self).cursor(), read),
                old(self).source(),
            ),
            r matches Ok(Some(node)) ==> pattern_within(node@.data, final(self).source().length)
                && node@.start < node@.end == final(self).source().end_of(final(self).iter.index()),
            !(r matches Ok(None)),
        decreases old(self).left(), 0nat,
    {
        let saved = self.iter.position();
        let ghost src = self.source();
        match self.symbol_eq(Symbol::Comma) {
            Some(comma) => {
                proof {
                    lemma_end_grows(src, saved as nat, self.iter.index());
                }
                let ghost grown = Names {
                    opener: read.opener,
                    start_names: read.start_names,
                    end_names: read.end_names,
                    dotted: read.dotted,
                    end: crate::parser::grammar::symbol_eq(
                        old(self).text(),
                        old(self).cursor(),
                        Symbol::Comma,
                    )->value.end,
                };
                self.pattern_names(
                    opener,
                    start_names,
                    end_names,
                    reached_dots,
                    comma.range.end,
                    Ghost(grown),
                    Ghost(start),
                )
            },
            None => {
                self.pattern_close(opener, start_names, end_names, end, Ghost(read), Ghost(start))
            },
        }
    }

    /// Reads the rest of a list of names, from an item on.
    fn pattern_names(
        &mut self,
        opener: ParseNode<Symbol>,
        start_names: Vec<ParseNode<Option<StringName>>>,
        end_names: Vec<ParseNode<Option<StringName>>>,
        reached_dots: bool,
        end: usize,
        Ghost(read): Ghost<Names>,
        Ghost(start): Ghost<Parser>,
    ) -> (r: Result<Option<ParseNode<VarNameType>>, Error>)
        requires
            old(self).follows(&start),
            old(self).iter.index() > start.iter.index(),
            holds_names(
                old(self).source(),
                opener,
                start_names@,
                end_names@,
                reached_dots,
                end,
                read,
            ),
            opener.range.end <= old(self).source().end_of(old(self).iter.index()),
        ensures
            final(self).follows(&start),
            final(self).iter.index() > start.iter.index(),
            outcome(r, final(self).cursor()) == placed_pattern(
                program::pattern_names(old(self).text(), old(self).cursor(), read),
                old(self).source(),
            ),
            r matches Ok(Some(node)) ==> pattern_within(node@.data, final(self).source().length)
                && node@.start < node@.end == final(self).source().end_of(final(self).iter.index()),
            !(r matches Ok(None)),
        decreases old(self).left(), 1nat,
    {
        let saved = self.iter.position();
        let ghost cs = self.text();
        let ghost src = self.source();
        let ghost here = self.cursor();
        match self.symbol_eq(Symbol::Dots) {
            Some(dots) => {
                if reached_dots {
                    return Err(Error::new(dots.range, ErrorType::ExtraDots));
                }
                proof {
                    lemma_end_grows(src, saved as nat, self.iter.index());
                }
                let ghost grown = Names {
                    opener: read.opener,
                    start_names: read.start_names,
                    end_names: read.end_names,
                    dotted: true,
                    end: crate::parser::grammar::symbol_eq(cs, here, Symbol::Dots)->value.end,
                };
                return self.pattern_comma(
                    opener,
                    start_names,
                    end_names,
                    true,
                    dots.range.end,
                    Ghost(grown),
                    Ghost(start),
                );
            },
            None => {},
        }
        match self.var_name()? {
            Some(name) => {
                let end = name.range.end;
                let ghost read_name = program::var_name(cs, here)->value;
                let mut start_names = start_names;
                let mut end_names = end_names;
                let ghost before_start = start_names@;
                let ghost before_end = end_names@;
                if reached_dots {
                    end_names.push(name);
                } else {
                    start_names.push(name);
                }
                let ghost grown = Names {
                    opener: read.opener,
                    start_names: if read.dotted {
                        read.start_names
                    } else {
                        read.start_names.push(read_name)
                    },
                    end_names: if read.dotted {
                        read.end_names.push(read_name)
                    } else {
                        read.end_names
                    },
                    dotted: read.dotted,
                    end: read_name.end,
                };
                proof {
                    if reached_dots {
                        assert(names_view(end_names@) =~= names_view(before_end).push(name@));
                        assert(place_names(grown.end_names, src) =~= place_names(
                            read.end_names,
                            src,
                        ).push(place(read_name, src)));
                    } else {
                        assert(names_view(start_names@) =~= names_view(before_start).push(name@));
                        assert(place_names(grown.start_names, src) =~= place_names(
                            read.start_names,
                            src,
                        ).push(place(read_name, src)));
                    }
                    lemma_end_grows(src, saved as nat, self.iter.index());
                }
                self.pattern_comma(
                    opener,
                    start_names,
                    end_names,
                    reached_dots,
                    end,
                    Ghost(grown),
                    Ghost(start),
                )
            },
            None => {
                self.pattern_close(opener, start_names, end_names, end, Ghost(read), Ghost(start))
            },
        }
    }

    /// Reads a pattern: one name, or names in square brackets.
    pub fn pattern(&mut self) -> (r: Result<Option<ParseNode<VarNameType>>, Error>)
        requires
            old(self).wf(),
        ensures
            final(self).patterns(
                old(self),
                r,
                program::pattern(old(self).text(), old(self).cursor()),
            ),
    {
        let ghost cs = self.text();
        let ghost src = self.source();
        match self.symbol_eq(Symbol::LSquareBracket) {
            Some(opener) => {
                let ghost read = Names {
                    opener: crate::parser::grammar::symbol_eq(
                        cs,
                        old(self).cursor(),
                        Symbol::LSquareBracket,
                    )->value,
                    start_names: Seq::empty(),
                    end_names: Seq::empty(),
                    dotted: false,
                    end: crate::parser::grammar::symbol_eq(
                        cs,
                        old(self).cursor(),
                        Symbol::LSquareBracket,
                    )->value.end,
                };
                let start_names: Vec<ParseNode<Option<StringName>>> = Vec::new();
                let end_names: Vec<ParseNode<Option<StringName>>> = Vec::new();
                proof {
                    assert(names_view(start_names@) =~= place_names(read.start_names, src));
                }
                let end = opener.range.end;
                self.pattern_names(
                    opener,
                    start_names,
                    end_names,
                    false,
                    end,
                    Ghost(read),
                    Ghost(*old(self)),
                )
            },
            None => {
                match self.var_name()? {
                    Some(name) => Ok(Some(ParseNode::new(name.range, VarNameType::Ident(name.data)))),
                    None => Ok(None),
                }
            },
        }
    }

    /// Reads a pattern and, behind `=`, the value that it is bound to.
    pub fn func_param(&mut self) -> (r: Result<Option<ParseNode<VarDecl>>, Error>)
        requires
            old(self).wf(),
        ensures
            final(self).declares(
                old(self),
                r,
                program::func_param(old(self).text(), old(self).cursor()),
            ),
    {
        let ghost src = self.source();
        let names = match self.pattern()? {
            Some(names) => names,
            None => {
                return Ok(None);
            },
        };
        let saved = self.iter.position();
        let sign = match self.symbol_eq(Symbol::Assign) {
            Some(sign) => sign,
            None => {
                proof {
                    lemma_end_grows(src, self.iter.index(), self.iter.index());
                }
                return Ok(Some(var_decl_node(names.range.start..names.range.end, names, None)));
            },
        };
        let value = match self.expression()? {
            Some(value) => value,
            None => {
                return Err(
                    Error::new(names.range.start..sign.range.end, ErrorType::ExpectedExpr),
                );
            },
        };
        proof {
            lemma_end_grows(src, saved as nat, self.iter.index());
        }
        Ok(Some(var_decl_node(names.range.start..value.range.end, names, Some(value))))
    }

    /// Reads a declaration of variables: `var`, a pattern and, if given, its
    /// value.
    pub fn var_decl(&mut self) -> (r: Result<Option<ParseNode<VarDecl>>, Error>)
        requires
            old(self).wf(),
        ensures
            final(self).declares(
                old(self),
                r,
                program::var_decl(old(self).text(), old(self).cursor()),
            ),
    {
        let word = match self.keyword_eq(Keyword::Var) {
            Some(word) => word,
            None => {
                return Ok(None);
            },
        };
        let ghost inside = self.iter.index();
        let decl = match self.func_param()? {
            Some(decl) => decl,
            None => {
                return Err(Error::new(word.range, ErrorType::ExpectedVarName));
            },
        };
        proof {
            lemma_end_grows(self.source(), inside, self.iter.index());
        }
        Ok(Some(ParseNode::new(word.range.start..decl.range.end, decl.data)))
    }

    /// What a function that reads parameters owes.
    pub open spec fn parameter_lists(
        &self,
        before: &Parser,
        r: Result<Vec<ParseNode<VarDecl>>, Error>,
        want: Parsed<Seq<Spanned<VarDeclView>>>,
    ) -> bool {
        &&& self.follows(before)
        &&& match want {
            Parsed::Hit { value, next } => {
                &&& r matches Ok(items)
                &&& parameters_view(items@) == place_parameters(value, before.source())
                &&& parameters_within(parameters_view(items@), self.source().length)
                &&& items@.len() == value.len()
                &&& items@.len() > 0 ==> items@.last().range.end == before.source().end_of(
                    value.last().end,
                )
                &&& self.cursor() == next
            },
            Parsed::Miss => false,
            Parsed::Fail { error, start, end } => {
                &&& r matches Err(e)
                &&& e.error == error
                &&& e.range.start == before.source().start_of(start)
                &&& e.range.end == before.source().end_of(end)
            },
        }
    }

    /// Reads parameters parted by commas.
    pub fn parameters(&mut self) -> (r: Result<Vec<ParseNode<VarDecl>>, Error>)
        requires
            old(self).wf(),
        ensures
            final(self).parameter_lists(
                old(self),
                r,
                program::parameters(old(self).text(), old(self).cursor(), Seq::empty()),
            ),
    {
        let ghost cs = self.text();
        let ghost src = self.source();
        let ghost goal = program::parameters(cs, self.cursor(), Seq::empty());
        let mut items: Vec<ParseNode<VarDecl>> = Vec::new();
        let ghost mut seen: Seq<Spanned<VarDeclView>> = Seq::empty();
        loop
            invariant
                self.wf(),
                self.source() == src,
                src == old(self).source(),
                cs == self.text(),
                self.iter.index() >= old(self).iter.index(),
                old(self).interner@.is_prefix_of(self.interner@),
                goal == program::parameters(cs, old(self).cursor(), Seq::empty()),
                program::parameters(cs, self.cursor(), seen) == goal,
                parameters_view(items@) == place_parameters(seen, src),
                parameters_within(parameters_view(items@), src.length),
                items@.len() == seen.len(),
                items@.len() > 0 ==> items@.last().range.end == src.end_of(seen.last().end),
            decreases self.left(),
        {
            let ghost here = self.cursor();
            let item = match self.func_param() {
                Ok(Some(item)) => item,
                Ok(None) => {
                    return Ok(items);
                },
                Err(e) => {
                    return Err(e);
                },
            };
            let ghost before = items@;
            let ghost grown = seen.push(program::func_param(cs, here)->value);
            items.push(item);
            proof {
                assert(parameters_view(items@) =~= parameters_view(before).push(item@));
                assert(place_parameters(grown, src) =~= place_parameters(seen, src).push(
                    place_var_decl_node(program::func_param(cs, here)->value, src),
                ));
                seen = grown;
            }
            if self.symbol_eq(Symbol::Comma).is_none() {
                return Ok(items);
            }
        }
    }

    /// What a function that reads what a function does owes.
    pub open spec fn bodies(
        &self,
        before: &Parser,
        r: Result<ParseNode<FuncBlock>, Error>,
        want: Parsed<Spanned<FuncBlockView>>,
    ) -> bool {
        &&& self.follows(before)
        &&& match want {
            Parsed::Hit { value, next } => {
                &&& r matches Ok(node)
                &&& node@ == place_func_block_node(value, before.source())
                &&& func_block_node_within(node@, self.source().length)
                &&& node@.end == self.source().end_of(self.iter.index())
                &&& self.cursor() == next
                &&& self.iter.index() > before.iter.index()
            },
            Parsed::Miss => false,
            Parsed::Fail { error, start, end } => {
                &&& r matches Err(e)
                &&& e.error == error
                &&& e.range.start == before.source().start_of(start)
                &&& e.range.end == before.source().end_of(end)
            },
        }
    }

    /// Reads what a function does: a block, or `->` and an expression.
    pub(crate) fn func_block(
        &mut self,
        word: &ParseNode<Keyword>,
        closing: &ParseNode<Symbol>,
        Ghost(read_word): Ghost<Spanned<Keyword>>,
        Ghost(read_closing): Ghost<Spanned<Symbol>>,
    ) -> (r: Result<ParseNode<FuncBlock>, Error>)
        requires
            old(self).wf(),
            word@ == place(read_word, old(self).source()),
            closing@ == place(read_closing, old(self).source()),
        ensures
            final(self).bodies(
                old(self),
                r,
                program::func_block(old(self).text(), old(self).cursor(), read_word, read_closing),
            ),
        decreases old(self).left(), 1nat,
    {
        match self.block()? {
            Some(block) => {
                return Ok(block_body(block));
            },
            None => {},
        }
        let arrow = match self.symbol_eq(Symbol::RightArrow) {
            Some(arrow) => arrow,
            None => {
                return Err(
                    Error::new(word.range.start..closing.range.end, ErrorType::ExpectedFuncBlock),
                );
            },
        };
        match self.expression()? {
            Some(value) => Ok(expression_body(value)),
            None => Err(Error::new(arrow.range, ErrorType::ExpectedExpr)),
        }
    }

    /// What a function that reads parameters in their parentheses owes.
    pub open spec fn signatures(
        &self,
        before: &Parser,
        r: Result<(Vec<ParseNode<VarDecl>>, ParseNode<Symbol>), Error>,
        want: Parsed<(Seq<Spanned<VarDeclView>>, Spanned<Symbol>)>,
    ) -> bool {
        &&& self.follows(before)
        &&& match want {
            Parsed::Hit { value, next } => {
                &&& r matches Ok(found)
                &&& parameters_view(found.0@) == place_parameters(value.0, before.source())
                &&& parameters_within(parameters_view(found.0@), self.source().length)
                &&& found.1@ == place(value.1, before.source())
                &&& self.cursor() == next
                &&& self.iter.index() > before.iter.index()
            },
            Parsed::Miss => false,
            Parsed::Fail { error, start, end } => {
                &&& r matches Err(e)
                &&& e.error == error
                &&& e.range.start == before.source().start_of(start)
                &&& e.range.end == before.source().end_of(end)
            },
        }
    }

    /// Reads the parameters of a function in their parentheses.
    pub(crate) fn parenthesized(
        &mut self,
        word: &ParseNode<Keyword>,
        name: &ParseNode<StringName>,
        Ghost(read_word): Ghost<Spanned<Keyword>>,
        Ghost(read_name): Ghost<Spanned<StringName>>,
    ) -> (r: Result<(Vec<ParseNode<VarDecl>>, ParseNode<Symbol>), Error>)
        requires
            old(self).wf(),
            word@ == place(read_word, old(self).source()),
            name@ == place(read_name, old(self).source()),
        ensures
            final(self).signatures(
                old(self),
                r,
                program::parenthesized(old(self).text(), old(self).cursor(), read_word, read_name),
            ),
    {
        let opener = match self.symbol_eq(Symbol::LParenthesis) {
            Some(opener) => opener,
            None => {
                return Err(
                    Error::new(word.range.start..name.range.end, ErrorType::ExpectedLParen),
                );
            },
        };
        let params = self.parameters()?;
        let closing = match self.symbol_eq(Symbol::RParenthesis) {
            Some(closing) => closing,
            None => {
                let end = if params.len() > 0 {
                    params[params.len() - 1].range.end
                } else {
                    opener.range.end
                };
                return Err(Error::new(opener.range.start..end, ErrorType::ExpectedRParen));
            },
        };
        Ok((params, closing))
    }

    /// Reads a declaration of a function.
    pub fn func_decl(&mut self) -> (r: Result<Option<ParseNode<FuncDecl>>, Error>)
        requires
            old(self).wf(),
        ensures
            final(self).delivers(
                old(self),
                outcome(r, final(self).cursor()),
                placed_func_decl(
                    program::func_decl(old(self).text(), old(self).cursor()),
                    old(self).source(),
                ),
            ),
            r matches Ok(Some(node)) ==> func_decl_within(node@.data, final(self).source().length),
        decreases old(self).left(), 2nat,
    {
        let ghost cs = self.text();
        let word = match self.keyword_eq(Keyword::Func) {
            Some(word) => word,
            None => {
                return Ok(None);
            },
        };
        let ghost read_word = crate::parser::grammar::keyword_eq(
            cs,
            old(self).cursor(),
            Keyword::Func,
        )->value;
        let ghost inside = self.cursor();
        let name = match self.ident() {
            Some(name) => name,
            None => {
                return Err(Error::new(word.range, ErrorType::ExpectedFuncName));
            },
        };
        let ghost read_name = crate::parser::grammar::ident(cs, inside)->value;
        let ghost behind = self.cursor();
        proof {
            lemma_end_grows(self.source(), inside.at, self.iter.index());
        }
        let (params, closing) = self.parenthesized(
            &word,
            &name,
            Ghost(read_word),
            Ghost(read_name),
        )?;
        let ghost read_closing = program::parenthesized(cs, behind, read_word, read_name)->value.1;
        let does = self.func_block(&word, &closing, Ghost(read_word), Ghost(read_closing))?;
        proof {
            lemma_end_grows(self.source(), inside.at, self.iter.index());
        }
        Ok(Some(func_decl_node(word.range.start..does.range.end, name, params, does)))
    }

    /// Reads a declaration: of variables, or of a function.
    pub fn declaration(&mut self) -> (r: Result<Option<ParseNode<Declaration>>, Error>)
        requires
            old(self).wf(),
        ensures
            final(self).delivers(
                old(self),
                outcome(r, final(self).cursor()),
                placed_declaration(
                    program::declaration(old(self).text(), old(self).cursor()),
                    old(self).source(),
                ),
            ),
            r matches Ok(Some(node)) ==> declaration_within(node@.data, final(self).source().length),
        decreases old(self).left(), 3nat,
    {
        match self.var_decl()? {
            Some(variables) => {
                return Ok(Some(var_declaration(variables)));
            },
            None => {},
        }
        match self.func_decl()? {
            Some(function) => Ok(Some(func_declaration(function))),
            None => Ok(None),
        }
    }
}

/// The views of parameters.
pub open spec fn parameters_view(params: Seq<ParseNode<VarDecl>>) -> Seq<Spanned<VarDeclView>> {
    params.map_values(|p: ParseNode<VarDecl>| p@)
}

/// A declaration of a function that was read, with all its spans in bytes of
/// the source.
pub open spec fn placed_func_decl(read: Parsed<Spanned<FuncDeclView>>, src: Stream) -> Parsed<
    Spanned<FuncDeclView>,
> {
    match read {
        Parsed::Hit { value, next } => Parsed::Hit {
            value: Spanned {
                data: place_func_decl(value.data, src),
                start: src.start_of(value.start),
                end: src.end_of(value.end),
            },
            next,
        },
        Parsed::Miss => Parsed::Miss,
        Parsed::Fail { error, start, end } => Parsed::Fail {
            error,
            start: src.start_of(start),
            end: src.end_of(end),
        },
    }
}

/// A declaration that was read, with all its spans in bytes of the source.
pub open spec fn placed_declaration(read: Parsed<Spanned<DeclarationView>>, src: Stream) -> Parsed<
    Spanned<DeclarationView>,
> {
    match read {
        Parsed::Hit { value, next } => Parsed::Hit {
            value: Spanned {
                data: place_declaration(value.data, src),
                start: src.start_of(value.start),
                end: src.end_of(value.end),
            },
            next,
        },
        Parsed::Miss => Parsed::Miss,
        Parsed::Fail { error, start, end } => Parsed::Fail {
            error,
            start: src.start_of(start),
            end: src.end_of(end),
        },
    }
}

/// What a function does, where that is a block.
fn block_body(block: ParseNode<Block>) -> (node: ParseNode<FuncBlock>)
    ensures
        node@ == (Spanned {
            data: FuncBlockView::Block(block@.data),
            start: block@.start,
            end: block@.end,
        }),
{
    ParseNode::new(block.range, FuncBlock::Block(block.data))
}

/// What a function does, where that is to return the value of an expression.
fn expression_body(value: ParseNode<Expression>) -> (node: ParseNode<FuncBlock>)
    ensures
        node@ == (Spanned {
            data: FuncBlockView::ReturnExpr(value@.data),
            start: value@.start,
            end: value@.end,
        }),
{
    ParseNode::new(value.range, FuncBlock::ReturnExpr(value.data))
}

/// A declaration of a function with its parts.
fn func_decl_node(
    range: Range<usize>,
    name: ParseNode<StringName>,
    params: Vec<ParseNode<VarDecl>>,
    block: ParseNode<FuncBlock>,
) -> (node: ParseNode<FuncDecl>)
    ensures
        node@ == (Spanned {
            data: FuncDeclView { name: name@, params: parameters_view(params@), block: block@ },
            start: range.start as nat,
            end: range.end as nat,
        }),
{
    ParseNode::new(range, FuncDecl { name, params, block })
}

/// The declaration that a declaration of variables is.
fn var_declaration(node: ParseNode<VarDecl>) -> (d: ParseNode<Declaration>)
    ensures
        d@ == (Spanned { data: DeclarationView::Var(node@.data), start: node@.start, end: node@.end }),
{
    ParseNode::new(node.range, Declaration::Var(node.data))
}

/// The declaration that a declaration of a function is.
fn func_declaration(node: ParseNode<FuncDecl>) -> (d: ParseNode<Declaration>)
    ensures
        d@ == (Spanned {
            data: DeclarationView::Func(node@.data),
            start: node@.start,
            end: node@.end,
        }),
{
    ParseNode::new(node.range, Declaration::Func(node.data))
}

} // verus!
