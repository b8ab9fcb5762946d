//! Reading tokens: trivia, words, symbols, numbers, strings and characters.

use crate::parser::chars::{radix_letter, to_digit, word_start};
use crate::parser::error::{Error, ErrorType};
use crate::parser::grammar;
use crate::parser::grammar::{
    chosen, close_end, comment_end, digits_value, hex_end, hex_value, in_class, lemma_comment_end,
    lemma_digits_value_step, lemma_escape, lemma_line_end, lemma_run_from, lemma_trivia_end,
    line_end, longest_symbol, run_end, text_body, trivia_end, Class, Delimiter, Escape, Parsed,
};
use crate::parser::parse_node::{
    chars_of, symbol_of, IdentKeyword, Keyword, Number, ParseNode, RealLiteral, Symbol,
    MAX_SYMBOL_LENGTH,
};
use crate::parser::parser::Parser;
use crate::parser::view::{arrived, found, outcome, placed};
use crate::source::lemma_span;
use crate::string_name::{lemma_with_name, StringName};
use std::ops::Range;
use vstd::prelude::*;

verus! {

impl Parser {
    /// Number of characters in the stream.
    pub fn len(&self) -> (n: usize)
        requires
            self.wf(),
        ensures
            n == self.text().len(),
    {
        self.iter.len()
    }

    /// Index behind the line that holds `from`.
    fn line_end_from(&self, from: usize) -> (end: usize)
        requires
            self.wf(),
            from <= self.text().len(),
        ensures
            end == line_end(self.text(), from as nat),
            from <= end <= self.text().len(),
    {
        let n = self.iter.len();
        let mut k = from;
        while k < n && self.iter.char_at(k) != '\n'
            invariant
                self.wf(),
                n == self.text().len(),
                from <= k <= n,
                line_end(self.text(), k as nat) == line_end(self.text(), from as nat),
            decreases n - k,
        {
            k = k + 1;
        }
        proof {
            lemma_line_end(self.text(), from as nat);
        }
        if k < n {
            k + 1
        } else {
            k
        }
    }

    /// Index behind the block comment whose body starts at `from`.
    fn comment_end_from(&self, from: usize) -> (end: usize)
        requires
            self.wf(),
            from <= self.text().len(),
        ensures
            end == comment_end(self.text(), from as nat),
            from <= end <= self.text().len(),
    {
        let n = self.iter.len();
        let mut k = from;
        while k < n && !(self.iter.char_at(k) == '*' && k + 1 < n && self.iter.char_at(k + 1) == '/')
            invariant
                self.wf(),
                n == self.text().len(),
                from <= k <= n,
                comment_end(self.text(), k as nat) == comment_end(self.text(), from as nat),
            decreases n - k,
        {
            k = k + 1;
        }
        proof {
            lemma_comment_end(self.text(), from as nat);
        }
        if k < n {
            k + 2
        } else {
            k
        }
    }

    /// Moves behind white space and comments.
    pub fn skip(&mut self)
        requires
            old(self).wf(),
        ensures
            final(self).follows(old(self)),
            final(self).cursor() == old(self).skipped(),
    {
        let n = self.iter.len();
        let ghost cs = self.text();
        let ghost from = self.iter.index();
        let mut done = false;
        proof {
            lemma_trivia_end(cs, from);
        }
        while !done
            invariant
                self.wf(),
                self.source() == old(self).source(),
                self.interner == old(self).interner,
                cs == self.text(),
                n == cs.len(),
                from <= self.iter.index() <= n,
                trivia_end(cs, self.iter.index()) == trivia_end(cs, from),
                done ==> self.iter.index() == trivia_end(cs, from),
            decreases n - self.iter.index(), if done { 0nat } else { 1nat },
        {
            let at = self.iter.position();
            if at >= n {
                done = true;
            } else {
                let c = self.iter.char_at(at);
                if c.is_whitespace() {
                    self.iter.seek(at + 1);
                } else if c == '/' && at + 1 < n && self.iter.char_at(at + 1) == '/' {
                    let end = self.line_end_from(at + 2);
                    self.iter.seek(end);
                } else if c == '/' && at + 1 < n && self.iter.char_at(at + 1) == '*' {
                    let end = self.comment_end_from(at + 2);
                    self.iter.seek(end);
                } else {
                    done = true;
                }
            }
        }
    }

    /// The byte range of the characters from index `from` up to `to`.
    pub fn span(&self, from: usize, to: usize) -> (range: Range<usize>)
        requires
            self.wf(),
            from < to <= self.text().len(),
        ensures
            range.start == self.source().start_of(from as nat),
            range.end == self.source().end_of(to as nat),
            range.start < range.end <= self.source().length,
    {
        proof {
            lemma_span(self.source(), from as nat, to as nat);
        }
        self.iter.start_of(from)..self.iter.end_of(to)
    }

    /// Reads a word, behind any trivia: its first and last index and its text.
    /// Nothing is interned. Where no word stands, the parser stays behind the
    /// trivia.
    fn word(&mut self) -> (r: Option<(usize, usize, String)>)
        requires
            old(self).wf(),
        ensures
            final(self).follows(old(self)),
            final(self).interner@ == old(self).interner@,
            match r {
                Some((p, q, text)) => {
                    &&& p == old(self).skipped().at
                    &&& p < old(self).text().len()
                    &&& word_start(old(self).text()[p as int])
                    &&& q == run_end(old(self).text(), (p + 1) as nat, Class::WordPart)
                    &&& p < q <= old(self).text().len()
                    &&& text@ == old(self).text().subrange(p as int, q as int)
                    &&& final(self).iter.index() == q
                },
                None => {
                    &&& final(self).cursor() == old(self).skipped()
                    &&& !(old(self).skipped().at < old(self).text().len() && word_start(
                        old(self).text()[old(self).skipped().at as int],
                    ))
                },
            },
    {
        self.skip();
        let n = self.iter.len();
        let p = self.iter.position();
        let ghost cs = self.text();
        if p >= n {
            return None;
        }
        let first = self.iter.char_at(p);
        if !(first.is_alphabetic() || first == '_') {
            return None;
        }
        let mut text = String::new();
        text.push(first);
        let mut q = p + 1;
        while q < n && (self.iter.char_at(q).is_alphanumeric() || self.iter.char_at(q) == '_')
            invariant
                self.wf(),
                cs == self.text(),
                n == cs.len(),
                p < q <= n,
                text@ == cs.subrange(p as int, q as int),
                run_end(cs, q as nat, Class::WordPart) == run_end(
                    cs,
                    (p + 1) as nat,
                    Class::WordPart,
                ),
            decreases n - q,
        {
            text.push(self.iter.char_at(q));
            q = q + 1;
        }
        self.iter.seek(q);
        Some((p, q, text))
    }

    /// Reads a word and tells a keyword from an identifier, which it interns.
    /// Where no word stands, the parser stays behind the trivia.
    pub fn ident_or_keyword(&mut self) -> (r: Option<ParseNode<IdentKeyword>>)
        requires
            old(self).wf(),
        ensures
            final(self).finds(
                old(self),
                found(r, final(self).cursor()),
                placed(
                    grammar::ident_or_keyword(old(self).text(), old(self).cursor()),
                    old(self).source(),
                ),
            ),
    {
        proof {
            reveal(grammar::ident_or_keyword);
            lemma_trivia_end(old(self).text(), old(self).iter.index());
        }
        match self.word() {
            Some((p, q, text)) => {
                let range = self.span(p, q);
                match Keyword::try_from(text.as_str()) {
                    Ok(k) => Some(ParseNode::new(range, IdentKeyword::Keyword(k))),
                    Err(_) => {
                        let name = self.interner.intern(text.as_str());
                        proof {
                            lemma_with_name(old(self).interner@, text@);
                        }
                        Some(ParseNode::new(range, IdentKeyword::Ident(name)))
                    },
                }
            },
            None => None,
        }
    }

    /// Reads an identifier, and nothing where a keyword stands. Where it reads
    /// nothing, the parser goes back to where it was.
    pub fn ident(&mut self) -> (r: Option<ParseNode<StringName>>)
        requires
            old(self).wf(),
        ensures
            final(self).delivers(
                old(self),
                found(r, final(self).cursor()),
                placed(grammar::ident(old(self).text(), old(self).cursor()), old(self).source()),
            ),
    {
        proof {
            reveal(grammar::ident_or_keyword);
            reveal(grammar::ident);
            lemma_trivia_end(old(self).text(), old(self).iter.index());
        }
        let saved = self.iter.position();
        match self.word() {
            Some((p, q, text)) => {
                match Keyword::try_from(text.as_str()) {
                    Ok(_) => {
                        self.iter.seek(saved);
                        None
                    },
                    Err(_) => {
                        let range = self.span(p, q);
                        let name = self.interner.intern(text.as_str());
                        proof {
                            lemma_with_name(old(self).interner@, text@);
                        }
                        Some(ParseNode::new(range, name))
                    },
                }
            },
            None => {
                self.iter.seek(saved);
                None
            },
        }
    }

    /// Reads an identifier that the predicate accepts. The predicate sees the
    /// name that the identifier has or, if it is new, would get.
    pub fn ident_if<F: FnOnce(StringName) -> bool>(&mut self, predicate: F) -> (r: Option<
        ParseNode<StringName>,
    >)
        requires
            old(self).wf(),
            forall|name: StringName| predicate.requires((name,)),
        ensures
            final(self).delivers(
                old(self),
                found(r, final(self).cursor()),
                placed(
                    chosen(grammar::ident(old(self).text(), old(self).cursor()), r is Some),
                    old(self).source(),
                ),
            ),
            grammar::ident(old(self).text(), old(self).cursor()) matches Parsed::Hit { value, .. }
                ==> predicate.ensures((value.data,), r is Some),
    {
        proof {
            reveal(grammar::ident_or_keyword);
            reveal(grammar::ident);
            lemma_trivia_end(old(self).text(), old(self).iter.index());
        }
        let saved = self.iter.position();
        match self.word() {
            Some((p, q, text)) => {
                match Keyword::try_from(text.as_str()) {
                    Ok(_) => {
                        self.iter.seek(saved);
                        None
                    },
                    Err(_) => {
                        let candidate = match self.interner.lookup(text.as_str()) {
                            Some(name) => name,
                            None => StringName(self.interner.len()),
                        };
                        if predicate(candidate) {
                            let range = self.span(p, q);
                            let name = self.interner.intern(text.as_str());
                            proof {
                                lemma_with_name(old(self).interner@, text@);
                            }
                            Some(ParseNode::new(range, name))
                        } else {
                            self.iter.seek(saved);
                            None
                        }
                    },
                }
            },
            None => {
                self.iter.seek(saved);
                None
            },
        }
    }

    /// Reads one given identifier, which was interned before.
    pub fn ident_eq(&mut self, ident: StringName) -> (r: Option<ParseNode<StringName>>)
        requires
            old(self).wf(),
        ensures
            final(self).delivers(
                old(self),
                found(r, final(self).cursor()),
                placed(
                    grammar::ident_eq(old(self).text(), old(self).cursor(), ident),
                    old(self).source(),
                ),
            ),
    {
        proof {
            reveal(grammar::ident_or_keyword);
            reveal(grammar::ident);
            reveal(grammar::ident_eq);
            lemma_trivia_end(old(self).text(), old(self).iter.index());
        }
        let saved = self.iter.position();
        match self.word() {
            Some((p, q, text)) => {
                match Keyword::try_from(text.as_str()) {
                    Ok(_) => {
                        self.iter.seek(saved);
                        None
                    },
                    Err(_) => {
                        proof {
                            lemma_with_name(old(self).interner@, text@);
                        }
                        match self.interner.lookup(text.as_str()) {
                            Some(name) => {
                                if name == ident {
                                    let range = self.span(p, q);
                                    Some(ParseNode::new(range, name))
                                } else {
                                    self.iter.seek(saved);
                                    None
                                }
                            },
                            None => {
                                self.iter.seek(saved);
                                None
                            },
                        }
                    },
                }
            },
            None => {
                self.iter.seek(saved);
                None
            },
        }
    }

    /// Reads a keyword, and nothing where an identifier stands. Where it reads
    /// nothing, the parser goes back to where it was.
    pub fn keyword(&mut self) -> (r: Option<ParseNode<Keyword>>)
        requires
            old(self).wf(),
        ensures
            final(self).delivers(
                old(self),
                found(r, final(self).cursor()),
                placed(grammar::keyword(old(self).text(), old(self).cursor()), old(self).source()),
            ),
    {
        proof {
            reveal(grammar::ident_or_keyword);
            reveal(grammar::keyword);
            lemma_trivia_end(old(self).text(), old(self).iter.index());
        }
        let saved = self.iter.position();
        match self.word() {
            Some((p, q, text)) => {
                match Keyword::try_from(text.as_str()) {
                    Ok(k) => {
                        let range = self.span(p, q);
                        Some(ParseNode::new(range, k))
                    },
                    Err(_) => {
                        self.iter.seek(saved);
                        None
                    },
                }
            },
            None => {
                self.iter.seek(saved);
                None
            },
        }
    }

    /// Reads a keyword that the predicate accepts. Where it reads nothing, the
    /// parser goes back to where it was.
    pub fn keyword_if<F: FnOnce(Keyword) -> bool>(&mut self, predicate: F) -> (r: Option<
        ParseNode<Keyword>,
    >)
        requires
            old(self).wf(),
            forall|k: Keyword| predicate.requires((k,)),
        ensures
            final(self).delivers(
                old(self),
                found(r, final(self).cursor()),
                placed(
                    chosen(grammar::keyword(old(self).text(), old(self).cursor()), r is Some),
                    old(self).source(),
                ),
            ),
            grammar::keyword(old(self).text(), old(self).cursor()) matches Parsed::Hit { value, .. }
                ==> predicate.ensures((value.data,), r is Some),
    {
        proof {
            reveal(grammar::ident_or_keyword);
            reveal(grammar::keyword);
        }
        let saved = self.iter.position();
        match self.keyword() {
            Some(found) => {
                if predicate(found.data) {
                    Some(found)
                } else {
                    self.iter.seek(saved);
                    None
                }
            },
            None => None,
        }
    }

    /// Reads one given keyword. Where it reads nothing, the parser goes back
    /// to where it was.
    pub fn keyword_eq(&mut self, keyword: Keyword) -> (r: Option<ParseNode<Keyword>>)
        requires
            old(self).wf(),
        ensures
            final(self).delivers(
                old(self),
                found(r, final(self).cursor()),
                placed(
                    grammar::keyword_eq(old(self).text(), old(self).cursor(), keyword),
                    old(self).source(),
                ),
            ),
    {
        proof {
            reveal(grammar::ident_or_keyword);
            reveal(grammar::keyword);
            reveal(grammar::keyword_eq);
        }
        let saved = self.iter.position();
        match self.keyword() {
            Some(found) => {
                if found.data == keyword {
                    Some(found)
                } else {
                    self.iter.seek(saved);
                    None
                }
            },
            None => None,
        }
    }

    /// Reads a symbol, the longest that stands there. Where none stands, the
    /// parser stays behind the trivia.
    pub fn symbol(&mut self) -> (r: Option<ParseNode<Symbol>>)
        requires
            old(self).wf(),
        ensures
            final(self).finds(
                old(self),
                found(r, final(self).cursor()),
                placed(grammar::symbol(old(self).text(), old(self).cursor()), old(self).source()),
            ),
    {
        proof {
            reveal(grammar::symbol);
        }
        self.skip();
        let n = self.iter.len();
        let p = self.iter.position();
        let ghost cs = self.text();
        proof {
            lemma_trivia_end(old(self).text(), old(self).iter.index());
        }
        let mut text = String::new();
        let mut tried: usize = 0;
        let mut best: usize = 0;
        let mut symbol: Option<Symbol> = None;
        while tried < MAX_SYMBOL_LENGTH && p + tried < n
            invariant
                self.wf(),
                cs == self.text(),
                n == cs.len(),
                p <= n,
                tried <= 5,
                p + tried <= n,
                text@ == cs.subrange(p as int, p + tried),
                best == longest_symbol(cs, p as nat, tried as nat),
                best <= tried,
                best > 0 ==> symbol == symbol_of(cs.subrange(p as int, p + best)) && symbol is Some,
                best == 0 ==> symbol is None,
            decreases 5 - tried,
        {
            text.push(self.iter.char_at(p + tried));
            tried = tried + 1;
            assert(text@ =~= cs.subrange(p as int, p + tried));
            match Symbol::try_from(text.as_str()) {
                Ok(s) => {
                    best = tried;
                    symbol = Some(s);
                },
                Err(_) => {},
            }
        }
        assert(longest_symbol(cs, p as nat, 5) == longest_symbol(cs, p as nat, tried as nat)) by {
            reveal_with_fuel(longest_symbol, 6);
        }
        match symbol {
            Some(s) => {
                let range = self.span(p, p + best);
                self.iter.seek(p + best);
                Some(ParseNode::new(range, s))
            },
            None => None,
        }
    }

    /// Reads a symbol that the predicate accepts. Where it reads nothing, the
    /// parser goes back to where it was.
    pub fn symbol_if<F: FnOnce(Symbol) -> bool>(&mut self, predicate: F) -> (r: Option<
        ParseNode<Symbol>,
    >)
        requires
            old(self).wf(),
            forall|s: Symbol| predicate.requires((s,)),
        ensures
            final(self).delivers(
                old(self),
                found(r, final(self).cursor()),
                placed(
                    chosen(grammar::symbol(old(self).text(), old(self).cursor()), r is Some),
                    old(self).source(),
                ),
            ),
            grammar::symbol(old(self).text(), old(self).cursor()) matches Parsed::Hit { value, .. }
                ==> predicate.ensures((value.data,), r is Some),
    {
        proof {
            reveal(grammar::symbol);
        }
        let saved = self.iter.position();
        match self.symbol() {
            Some(found) => {
                if predicate(found.data) {
                    Some(found)
                } else {
                    self.iter.seek(saved);
                    None
                }
            },
            None => {
                self.iter.seek(saved);
                None
            },
        }
    }

    /// Reads one given symbol. Where it reads nothing, the parser goes back to
    /// where it was.
    pub fn symbol_eq(&mut self, symbol: Symbol) -> (r: Option<ParseNode<Symbol>>)
        requires
            old(self).wf(),
        ensures
            final(self).delivers(
                old(self),
                found(r, final(self).cursor()),
                placed(
                    grammar::symbol_eq(old(self).text(), old(self).cursor(), symbol),
                    old(self).source(),
                ),
            ),
    {
        proof {
            reveal(grammar::symbol);
            reveal(grammar::symbol_eq);
        }
        let saved = self.iter.position();
        match self.symbol() {
            Some(found) => {
                if found.data == symbol {
                    Some(found)
                } else {
                    self.iter.seek(saved);
                    None
                }
            },
            None => {
                self.iter.seek(saved);
                None
            },
        }
    }

    /// Reads the digits of an integer, with no trivia before them.
    pub fn integer(&mut self, radix: u32) -> (r: Result<Option<ParseNode<u64>>, Error>)
        requires
            old(self).wf(),
            2 <= radix <= 36,
        ensures
            final(self).delivers(
                old(self),
                outcome(r, final(self).cursor()),
                placed(
                    grammar::integer(old(self).text(), old(self).cursor(), radix as nat),
                    old(self).source(),
                ),
            ),
    {
        proof {
            reveal(grammar::integer);
        }
        let n = self.iter.len();
        let start = self.iter.position();
        let ghost cs = self.text();
        let ghost class = Class::Digit(radix as nat);
        let mut q = start;
        let mut value: u64 = 0;
        let mut overflow = false;
        let mut more = true;
        while more
            invariant
                self.wf(),
                cs == self.text(),
                n == cs.len(),
                2 <= radix <= 36,
                class == Class::Digit(radix as nat),
                start <= q <= n,
                run_end(cs, q as nat, class) == run_end(cs, start as nat, class),
                !more ==> q == run_end(cs, start as nat, class),
                !overflow ==> value == digits_value(cs, start as nat, q as nat, radix as nat),
                overflow ==> digits_value(cs, start as nat, q as nat, radix as nat) > u64::MAX,
            decreases n - q, if more { 1nat } else { 0nat },
        {
            if q >= n {
                more = false;
            } else {
                match to_digit(self.iter.char_at(q), radix) {
                    Some(d) => {
                        proof {
                            lemma_digits_value_step(cs, start as nat, q as nat, radix as nat);
                        }
                        if !overflow {
                            match value.checked_mul(radix as u64) {
                                Some(scaled) => match scaled.checked_add(d as u64) {
                                    Some(sum) => {
                                        value = sum;
                                    },
                                    None => {
                                        overflow = true;
                                    },
                                },
                                None => {
                                    overflow = true;
                                },
                            }
                        }
                        q = q + 1;
                    },
                    None => {
                        more = false;
                    },
                }
            }
        }
        if q == start {
            return Ok(None);
        }
        let range = self.span(start, q);
        self.iter.seek(q);
        if overflow {
            Err(Error::new(range, ErrorType::IntOverflow))
        } else {
            Ok(Some(ParseNode::new(range, value)))
        }
    }

    /// Reads a radix prefix, with no trivia before it: a letter or a zero, then
    /// `b`, `o` or `x`, where a digit of that radix follows.
    pub fn radix(&mut self) -> (r: Option<ParseNode<u32>>)
        requires
            old(self).wf(),
        ensures
            final(self).delivers(
                old(self),
                found(r, final(self).cursor()),
                placed(grammar::radix(old(self).text(), old(self).cursor()), old(self).source()),
            ),
            r matches Some(prefix) ==> 2 <= prefix.data <= 16,
    {
        proof {
            reveal(grammar::radix);
        }
        let n = self.iter.len();
        let p = self.iter.position();
        if n - p < 3 {
            return None;
        }
        let lead = self.iter.char_at(p);
        if !(lead.is_alphabetic() || lead == '0') {
            return None;
        }
        match radix_letter(self.iter.char_at(p + 1)) {
            Some(radix) => {
                if to_digit(self.iter.char_at(p + 2), radix).is_some() {
                    let range = self.span(p, p + 2);
                    self.iter.seek(p + 2);
                    Some(ParseNode::new(range, radix))
                } else {
                    None
                }
            },
            None => None,
        }
    }

    /// Reads a decimal number, with no trivia before it: an integer and, behind
    /// a point, a fraction.
    pub fn decimal(&mut self) -> (r: Result<Option<ParseNode<Number>>, Error>)
        requires
            old(self).wf(),
        ensures
            final(self).delivers(
                old(self),
                outcome(r, final(self).cursor()),
                placed(grammar::decimal(old(self).text(), old(self).cursor()), old(self).source()),
            ),
    {
        proof {
            reveal(grammar::integer);
            reveal(grammar::decimal);
        }
        let integer = match self.integer(10)? {
            Some(integer) => integer,
            None => {
                return Ok(None);
            },
        };
        let n = self.iter.len();
        let dot = self.iter.position();
        if !(dot < n && self.iter.char_at(dot) == '.') {
            let value = integer.data;
            return Ok(Some(ParseNode::new(integer.range, Number::Int(value))));
        }
        self.iter.seek(dot + 1);
        proof {
            lemma_span(self.source(), old(self).iter.index(), (dot + 1) as nat);
        }
        match self.integer(10)? {
            Some(fraction) => {
                let behind = self.iter.position();
                Ok(
                    Some(
                        ParseNode::new(
                            integer.range.start..fraction.range.end,
                            Number::Real(
                                RealLiteral {
                                    integer: integer.data,
                                    fraction: fraction.data,
                                    fraction_digits: behind - (dot + 1),
                                    exponent_negative: false,
                                    exponent: 0,
                                },
                            ),
                        ),
                    ),
                )
            },
            None => {
                let end = self.iter.end_of(dot + 1);
                Ok(
                    Some(
                        ParseNode::new(
                            integer.range.start..end,
                            Number::Real(
                                RealLiteral {
                                    integer: integer.data,
                                    fraction: 0,
                                    fraction_digits: 0,
                                    exponent_negative: false,
                                    exponent: 0,
                                },
                            ),
                        ),
                    ),
                )
            },
        }
    }

    /// Reads a decimal number and, behind `e` or `E`, its exponent, with no
    /// trivia before it.
    pub fn scientific(&mut self) -> (r: Result<Option<ParseNode<Number>>, Error>)
        requires
            old(self).wf(),
        ensures
            final(self).delivers(
                old(self),
                outcome(r, final(self).cursor()),
                placed(
                    grammar::scientific(old(self).text(), old(self).cursor()),
                    old(self).source(),
                ),
            ),
    {
        proof {
            reveal(grammar::integer);
            reveal(grammar::decimal);
            reveal(grammar::scientific);
        }
        let number = match self.decimal()? {
            Some(number) => number,
            None => {
                return Ok(None);
            },
        };
        let n = self.iter.len();
        let mark = self.iter.position();
        if !(mark < n && (self.iter.char_at(mark) == 'e' || self.iter.char_at(mark) == 'E')) {
            return Ok(Some(number));
        }
        let mut digits = mark + 1;
        let mut negative = false;
        if digits < n && (self.iter.char_at(digits) == '+' || self.iter.char_at(digits) == '-') {
            negative = self.iter.char_at(digits) == '-';
            digits = digits + 1;
        }
        self.iter.seek(digits);
        proof {
            lemma_span(self.source(), old(self).iter.index(), digits as nat);
        }
        let base = match number.data {
            Number::Int(i) => RealLiteral {
                integer: i,
                fraction: 0,
                fraction_digits: 0,
                exponent_negative: false,
                exponent: 0,
            },
            Number::Real(r) => r,
        };
        match self.integer(10)? {
            Some(exponent) => Ok(
                Some(
                    ParseNode::new(
                        number.range.start..exponent.range.end,
                        Number::Real(
                            RealLiteral {
                                integer: base.integer,
                                fraction: base.fraction,
                                fraction_digits: base.fraction_digits,
                                exponent_negative: negative,
                                exponent: exponent.data,
                            },
                        ),
                    ),
                ),
            ),
            None => {
                let end = self.iter.end_of(digits);
                Err(Error::new(number.range.start..end, ErrorType::ExpectedInteger))
            },
        }
    }

    /// Reads a number: an integer in base 2, 8 or 16 behind a radix prefix, or
    /// a decimal number with an optional exponent. Where none stands, the
    /// parser stays behind the trivia.
    pub fn number(&mut self) -> (r: Result<Option<ParseNode<Number>>, Error>)
        requires
            old(self).wf(),
        ensures
            final(self).finds(
                old(self),
                outcome(r, final(self).cursor()),
                placed(grammar::number(old(self).text(), old(self).cursor()), old(self).source()),
            ),
    {
        proof {
            reveal(grammar::radix);
            reveal(grammar::integer);
            reveal(grammar::scientific);
            reveal(grammar::number);
        }
        self.skip();
        proof {
            lemma_trivia_end(old(self).text(), old(self).iter.index());
        }
        match self.radix() {
            Some(prefix) => {
                match self.integer(prefix.data)? {
                    Some(integer) => Ok(
                        Some(
                            ParseNode::new(
                                prefix.range.start..integer.range.end,
                                Number::Int(integer.data),
                            ),
                        ),
                    ),
                    None => Err(Error::new(prefix.range, ErrorType::ExpectedInteger)),
                }
            },
            None => self.scientific(),
        }
    }

    /// Reads up to `most` hexadecimal digits from index `from` on: their value
    /// and the index behind them.
    fn hex_digits(&self, from: usize, most: usize) -> (r: (u32, usize))
        requires
            self.wf(),
            from <= self.text().len(),
            most <= 4,
        ensures
            r.1 == hex_end(self.text(), from as nat, most as nat),
            r.0 == hex_value(self.text(), from as nat, r.1 as nat),
            from <= r.1 <= self.text().len(),
            r.1 <= from + most,
    {
        let n = self.iter.len();
        let ghost cs = self.text();
        let ghost class = Class::Digit(16);
        let mut code: u32 = 0;
        let mut k: usize = 0;
        let mut more = true;
        while more && k < most
            invariant
                self.wf(),
                cs == self.text(),
                n == cs.len(),
                class == Class::Digit(16),
                most <= 4,
                k <= most,
                from + k <= n,
                forall|i: int| from <= i < from + k ==> in_class(class, #[trigger] cs[i]),
                !more ==> from + k == run_end(cs, from as nat, class),
                code == digits_value(cs, from as nat, (from + k) as nat, 16),
                code < 0x10000,
                k <= 3 ==> code < 0x1000,
                k <= 2 ==> code < 0x100,
                k <= 1 ==> code < 0x10,
                k == 0 ==> code == 0,
            decreases most - k, if more { 1nat } else { 0nat },
        {
            if from + k >= n {
                more = false;
                proof {
                    lemma_run_from(cs, from as nat, (from + k) as nat, class);
                }
            } else {
                match to_digit(self.iter.char_at(from + k), 16) {
                    Some(d) => {
                        proof {
                            lemma_digits_value_step(cs, from as nat, (from + k) as nat, 16);
                        }
                        code = code * 16 + d;
                        k = k + 1;
                    },
                    None => {
                        more = false;
                        proof {
                            lemma_run_from(cs, from as nat, (from + k) as nat, class);
                        }
                    },
                }
            }
        }
        proof {
            lemma_run_from(cs, from as nat, (from + k) as nat, class);
        }
        (code, from + k)
    }

    /// Reads the escape sequence whose backslash stands just before `at`: the
    /// character that it stands for and the index behind it, or the error and
    /// the index up to which the sequence was read.
    fn escape(&self, at: usize) -> (r: Result<(char, usize), (ErrorType, usize)>)
        requires
            self.wf(),
            at <= self.text().len(),
        ensures
            match r {
                Ok((c, next)) => grammar::escape(self.text(), at as nat) == (Escape::Char {
                    c,
                    next: next as nat,
                }),
                Err((error, end)) => grammar::escape(self.text(), at as nat) == (Escape::Bad {
                    error,
                    end: end as nat,
                }),
            },
    {
        reveal(grammar::escape);
        let n = self.iter.len();
        if at >= n {
            return Err((ErrorType::IncompleteEscape, at));
        }
        let c = self.iter.char_at(at);
        if c == 'n' {
            Ok(('\n', at + 1))
        } else if c == 't' {
            Ok(('\t', at + 1))
        } else if c == 'r' {
            Ok(('\r', at + 1))
        } else if c == '0' {
            Ok(('\0', at + 1))
        } else if c == '\\' || c == '\'' || c == '"' {
            Ok((c, at + 1))
        } else if c == 'x' {
            let (code, end) = self.hex_digits(at + 1, 2);
            if end - at < 3 {
                Err((ErrorType::IncompleteCharCode, end))
            } else {
                match char::from_u32(code) {
                    Some(decoded) => Ok((decoded, end)),
                    None => Err((ErrorType::InvalidCharCode, end)),
                }
            }
        } else if c == 'u' {
            if at + 1 < n && self.iter.char_at(at + 1) == '{' {
                let (code, end) = self.hex_digits(at + 2, 4);
                if !(end < n && self.iter.char_at(end) == '}') {
                    Err((ErrorType::ExpectedRCurly, end))
                } else if end - at <= 2 {
                    Err((ErrorType::InvalidCharCode, end + 1))
                } else {
                    match char::from_u32(code) {
                        Some(decoded) => Ok((decoded, end + 1)),
                        None => Err((ErrorType::InvalidCharCode, end + 1)),
                    }
                }
            } else {
                Err((ErrorType::ExpectedLCurly, at + 1))
            }
        } else {
            Err((ErrorType::InvalidEscape, at + 1))
        }
    }

    /// The index behind the closing delimiter, if it stands at `at`.
    fn closes(&self, at: usize, quote: char, depth: Option<usize>) -> (r: Option<usize>)
        requires
            self.wf(),
            at <= self.text().len(),
        ensures
            forall|incomplete: ErrorType|
                #![trigger delimiter(quote, depth, incomplete)]
                match r {
                    Some(end) => close_end(
                        self.text(),
                        at as nat,
                        delimiter(quote, depth, incomplete),
                    ) == Some(end as nat),
                    None => close_end(self.text(), at as nat, delimiter(quote, depth, incomplete))
                        is None,
                },
            r matches Some(end) ==> at < end <= self.text().len(),
    {
        let n = self.iter.len();
        let ghost cs = self.text();
        let ghost class = Class::Exactly(')');
        if !(at < n && self.iter.char_at(at) == quote) {
            return None;
        }
        match depth {
            None => Some(at + 1),
            Some(depth) => {
                let mut k: usize = 0;
                let mut more = true;
                while more && k < depth
                    invariant
                        self.wf(),
                        cs == self.text(),
                        n == cs.len(),
                        class == Class::Exactly(')'),
                        at < n,
                        k <= depth,
                        at + 1 + k <= n,
                        forall|i: int| at + 1 <= i < at + 1 + k ==> in_class(class, #[trigger] cs[i]),
                        !more ==> at + 1 + k == run_end(cs, (at + 1) as nat, class) && k < depth,
                    decreases depth - k, if more { 1nat } else { 0nat },
                {
                    proof {
                        lemma_run_from(cs, (at + 1) as nat, (at + 1 + k) as nat, class);
                    }
                    if at + 1 + k < n && self.iter.char_at(at + 1 + k) == ')' {
                        k = k + 1;
                    } else {
                        more = false;
                    }
                }
                proof {
                    lemma_run_from(cs, (at + 1) as nat, (at + 1 + k) as nat, class);
                }
                if more {
                    Some(at + 1 + depth)
                } else {
                    None
                }
            },
        }
    }

    /// Reads the rest of a literal of text: it started at index `start`, at or
    /// before where the parser stands, and its body starts where the parser
    /// stands.
    pub fn parse_string(
        &mut self,
        start: usize,
        quote: char,
        depth: Option<usize>,
        incomplete_error: ErrorType,
    ) -> (r: Result<ParseNode<String>, Error>)
        requires
            old(self).wf(),
            start <= old(self).iter.index(),
        ensures
            final(self).follows(old(self)),
            arrived(r, final(self).cursor()) == placed(
                text_body(
                    old(self).text(),
                    old(self).cursor(),
                    start as nat,
                    delimiter(quote, depth, incomplete_error),
                    Seq::empty(),
                ),
                old(self).source(),
            ),
            r matches Ok(node) ==> node.range.start < node.range.end == final(self).source().end_of(
                final(self).iter.index(),
            ),
    {
        let n = self.iter.len();
        let ghost cs = self.text();
        let ghost by = delimiter(quote, depth, incomplete_error);
        let ghost goal = text_body(cs, self.cursor(), start as nat, by, Seq::empty());
        let mut out = String::new();
        loop
            invariant
                self.wf(),
                self.source() == old(self).source(),
                self.interner@ == old(self).interner@,
                cs == self.text(),
                n == cs.len(),
                by == delimiter(quote, depth, incomplete_error),
                start <= self.iter.index() <= n,
                old(self).iter.index() <= self.iter.index(),
                goal == text_body(
                    old(self).text(),
                    old(self).cursor(),
                    start as nat,
                    by,
                    Seq::empty(),
                ),
                text_body(cs, self.cursor(), start as nat, by, out@) == goal,
            decreases n - self.iter.index(),
        {
            let at = self.iter.position();
            match self.closes(at, quote, depth) {
                Some(end) => {
                    let range = self.span(start, end);
                    self.iter.seek(end);
                    return Ok(ParseNode::new(range, out));
                },
                None => {},
            }
            if at >= n {
                let range = self.iter.start_of(start)..self.iter.end_of(at);
                return Err(Error::new(range, incomplete_error));
            }
            let c = self.iter.char_at(at);
            if c == '\\' && depth.is_none() {
                proof {
                    lemma_escape(cs, (at + 1) as nat);
                }
                match self.escape(at + 1) {
                    Ok((decoded, next)) => {
                        out.push(decoded);
                        self.iter.seek(next);
                    },
                    Err((error, end)) => {
                        let range = self.span(start, end);
                        return Err(Error::new(range, error));
                    },
                }
            } else {
                out.push(c);
                self.iter.seek(at + 1);
            }
        }
    }

    /// Reads a string: in double quotes, or raw behind `r` and any number of
    /// opening parentheses. Where none stands, the parser stays behind the
    /// trivia.
    pub fn string(&mut self) -> (r: Result<Option<ParseNode<String>>, Error>)
        requires
            old(self).wf(),
        ensures
            final(self).finds(
                old(self),
                outcome(r, final(self).cursor()),
                placed(grammar::string(old(self).text(), old(self).cursor()), old(self).source()),
            ),
    {
        proof {
            reveal(grammar::string);
        }
        self.skip();
        proof {
            lemma_trivia_end(old(self).text(), old(self).iter.index());
        }
        let n = self.iter.len();
        let p = self.iter.position();
        let ghost cs = self.text();
        if p >= n {
            return Ok(None);
        }
        let first = self.iter.char_at(p);
        if first == 'r' {
            let ghost class = Class::Exactly('(');
            let mut quote = p + 1;
            while quote < n && self.iter.char_at(quote) == '('
                invariant
                    self.wf(),
                    cs == self.text(),
                    n == cs.len(),
                    class == Class::Exactly('('),
                    p < quote <= n,
                    forall|i: int| p + 1 <= i < quote ==> in_class(class, #[trigger] cs[i]),
                decreases n - quote,
            {
                quote = quote + 1;
            }
            proof {
                lemma_run_from(cs, (p + 1) as nat, quote as nat, class);
            }
            if quote < n && self.iter.char_at(quote) == '"' {
                self.iter.seek(quote + 1);
                let node = self.parse_string(
                    p,
                    '"',
                    Some(quote - (p + 1)),
                    ErrorType::IncompleteString,
                )?;
                Ok(Some(node))
            } else {
                Ok(None)
            }
        } else if first == '"' {
            self.iter.seek(p + 1);
            let node = self.parse_string(p, '"', None, ErrorType::IncompleteString)?;
            Ok(Some(node))
        } else {
            Ok(None)
        }
    }

    /// Reads a character in single quotes. Where none stands, the parser
    /// stays behind the trivia.
    pub fn char(&mut self) -> (r: Result<Option<ParseNode<char>>, Error>)
        requires
            old(self).wf(),
        ensures
            final(self).finds(
                old(self),
                outcome(r, final(self).cursor()),
                placed(grammar::character(old(self).text(), old(self).cursor()), old(self).source()),
            ),
    {
        proof {
            reveal(grammar::character);
        }
        self.skip();
        proof {
            lemma_trivia_end(old(self).text(), old(self).iter.index());
        }
        let n = self.iter.len();
        let p = self.iter.position();
        if !(p < n && self.iter.char_at(p) == '\'') {
            return Ok(None);
        }
        self.iter.seek(p + 1);
        let text = self.parse_string(p, '\'', None, ErrorType::IncompleteChar)?;
        let decoded = chars_of(text.data.as_str());
        if decoded.len() == 0 {
            Err(Error::new(text.range, ErrorType::EmptyChar))
        } else if decoded.len() > 1 {
            Err(Error::new(text.range, ErrorType::TooManyChars))
        } else {
            Ok(Some(ParseNode::new(text.range, decoded[0])))
        }
    }
}

/// How a literal of text is delimited, from what the tokenizer passes on.
pub open spec fn delimiter(quote: char, depth: Option<usize>, incomplete: ErrorType) -> Delimiter {
    Delimiter {
        quote,
        depth: match depth {
            Some(d) => Some(d as nat),
            None => None,
        },
        incomplete,
    }
}

} // verus!
