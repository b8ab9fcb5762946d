//! Syntax errors and how they are shown.

use crate::source::{lemma_stream_wf, stream_of, SourceIter, Stream};
use std::ops::Range;
use vstd::prelude::*;

verus! {

/// What is wrong with the text.
#[derive(Debug, Clone, Copy, PartialEq, Eq, Structural)]
pub enum ErrorType {
    IntOverflow,
    ExpectedLParen,
    ExpectedRParen,
    ExpectedLCurly,
    ExpectedRCurly,
    ExpectedLSquare,
    ExpectedRSquare,
    ExpectedNumber,
    ExpectedInteger,
    ExpectedIdent,
    ExpectedExpr,
    ExpectedVarName,
    ExpectedFuncName,
    ExpectedSemicolon,
    ExpectedColon,
    ExpectedAssign,
    ExpectedBlock,
    ExpectedFuncBlock,
    ExpectedEOF,
    IncompleteString,
    IncompleteCharCode,
    IncompleteEscape,
    IncompleteChar,
    InvalidEscape,
    InvalidCharCode,
    EmptyChar,
    TooManyChars,
    UnexpectedSymbol,
    ExtraDots,
    UnderscoreVariable,
}

/// A syntax error: what is wrong, and the byte range of the source where.
#[derive(Debug, PartialEq)]
pub struct Error {
    pub range: Range<usize>,
    pub error: ErrorType,
}

/// What a parsing function returns: its result, or the error that ends the
/// parse.
pub type Result<T> = std::result::Result<T, Error>;

impl Error {
    /// An error of this kind at this range.
    pub fn new(range: Range<usize>, error: ErrorType) -> (e: Self)
        ensures
            e.range == range,
            e.error == error,
    {
        Self { range, error }
    }
}

/// What an error says.
pub open spec fn message_of(error: ErrorType) -> Seq<char> {
    match error {
        ErrorType::IntOverflow => "Integer overflow"@,
        ErrorType::UnexpectedSymbol => "Unexpected symbol"@,
        ErrorType::ExpectedLParen => "Expected a '('"@,
        ErrorType::ExpectedRParen => "Expected a ')'"@,
        ErrorType::ExpectedLCurly => "Expected a '{'"@,
        ErrorType::ExpectedRCurly => "Expected a '}'"@,
        ErrorType::ExpectedLSquare => "Expected a '['"@,
        ErrorType::ExpectedRSquare => "Expected a ']'"@,
        ErrorType::ExpectedSemicolon => "Expected a ';'"@,
        ErrorType::ExpectedColon => "Expected a ':'"@,
        ErrorType::ExpectedAssign => "Expected a '='"@,
        ErrorType::ExpectedNumber => "Expected a number"@,
        ErrorType::ExpectedInteger => "Expected an integer"@,
        ErrorType::ExpectedIdent => "Expected an identifier"@,
        ErrorType::ExpectedFuncName => "Expected a function name"@,
        ErrorType::ExpectedExpr => "Expected expression"@,
        ErrorType::ExpectedVarName => "Expected variable name"@,
        ErrorType::ExpectedEOF => "Expected end of file"@,
        ErrorType::ExpectedBlock => "Expected a block of statements"@,
        ErrorType::ExpectedFuncBlock => "Expected a block or expression ('-> [expr]')"@,
        ErrorType::IncompleteString => "Incomplete string"@,
        ErrorType::IncompleteEscape => "Incomplete escape sequence"@,
        ErrorType::IncompleteChar => "Incomplete character literal"@,
        ErrorType::IncompleteCharCode => "Incomplete character code. Must have 2 digits"@,
        ErrorType::InvalidEscape => "Invalid escape sequence"@,
        ErrorType::InvalidCharCode => "Invalid character code"@,
        ErrorType::EmptyChar => "Empty character literal. Must have 1 character"@,
        ErrorType::TooManyChars => "Too many characters in character literal. Must have 1 character"@,
        ErrorType::ExtraDots => "Cannot have multiple '...' symbol in array unpacking"@,
        ErrorType::UnderscoreVariable => "Cannot read from '_'. You can only assign to it"@,
    }
}

impl ErrorType {
    /// What the error says.
    pub fn message(&self) -> (text: &'static str)
        ensures
            text@ == message_of(*self),
    {
        match self {
            ErrorType::IntOverflow => "Integer overflow",
            ErrorType::UnexpectedSymbol => "Unexpected symbol",
            ErrorType::ExpectedLParen => "Expected a '('",
            ErrorType::ExpectedRParen => "Expected a ')'",
            ErrorType::ExpectedLCurly => "Expected a '{'",
            ErrorType::ExpectedRCurly => "Expected a '}'",
            ErrorType::ExpectedLSquare => "Expected a '['",
            ErrorType::ExpectedRSquare => "Expected a ']'",
            ErrorType::ExpectedSemicolon => "Expected a ';'",
            ErrorType::ExpectedColon => "Expected a ':'",
            ErrorType::ExpectedAssign => "Expected a '='",
            ErrorType::ExpectedNumber => "Expected a number",
            ErrorType::ExpectedInteger => "Expected an integer",
            ErrorType::ExpectedIdent => "Expected an identifier",
            ErrorType::ExpectedFuncName => "Expected a function name",
            ErrorType::ExpectedExpr => "Expected expression",
            ErrorType::ExpectedVarName => "Expected variable name",
            ErrorType::ExpectedEOF => "Expected end of file",
            ErrorType::ExpectedBlock => "Expected a block of statements",
            ErrorType::ExpectedFuncBlock => "Expected a block or expression ('-> [expr]')",
            ErrorType::IncompleteString => "Incomplete string",
            ErrorType::IncompleteEscape => "Incomplete escape sequence",
            ErrorType::IncompleteChar => "Incomplete character literal",
            ErrorType::IncompleteCharCode => "Incomplete character code. Must have 2 digits",
            ErrorType::InvalidEscape => "Invalid escape sequence",
            ErrorType::InvalidCharCode => "Invalid character code",
            ErrorType::EmptyChar => "Empty character literal. Must have 1 character",
            ErrorType::TooManyChars => "Too many characters in character literal. Must have 1 character",
            ErrorType::ExtraDots => "Cannot have multiple '...' symbol in array unpacking",
            ErrorType::UnderscoreVariable => "Cannot read from '_'. You can only assign to it",
        }
    }
}

/// The character that writes a digit.
pub open spec fn digit_char(d: nat) -> char {
    if d == 0 {
        '0'
    } else if d == 1 {
        '1'
    } else if d == 2 {
        '2'
    } else if d == 3 {
        '3'
    } else if d == 4 {
        '4'
    } else if d == 5 {
        '5'
    } else if d == 6 {
        '6'
    } else if d == 7 {
        '7'
    } else if d == 8 {
        '8'
    } else {
        '9'
    }
}

/// A number written in decimal digits.
pub open spec fn decimal(n: nat) -> Seq<char>
    decreases n,
{
    if n < 10 {
        seq![digit_char(n)]
    } else {
        decimal(n / 10).push(digit_char(n % 10))
    }
}

/// `count` times the character `c`.
pub open spec fn repeated(c: char, count: nat) -> Seq<char> {
    Seq::new(count, |i: int| c)
}

/// What stands before a line of the excerpt: a space, the line's number set
/// to the right in three columns or more, and a bar between spaces.
pub open spec fn line_label(number: nat) -> Seq<char> {
    let digits = decimal(number);
    let pad = if digits.len() < 3 {
        (3 - digits.len()) as nat
    } else {
        0
    };
    seq![' '] + repeated(' ', pad) + digits + seq![' ', '|', ' ']
}

/// The line that tells where an error starts, and the line that tells what
/// it is.
pub open spec fn locator(line: nat, column: nat, message: Seq<char>) -> Seq<char> {
    "line "@ + decimal(line) + ", column "@ + decimal(column) + seq!['\n'] + message + seq!['\n']
}

/// The marks under the characters of a line from index `from` up to `to`: a
/// space under each that stands before the range of bytes from `start` to
/// `end`, a caret under each that starts in it, and nothing from the first
/// that stands behind it.
pub open spec fn marks(src: Stream, start: nat, end: nat, from: nat, to: nat) -> Seq<char>
    decreases to - from,
{
    if from >= to || from >= src.offsets.len() {
        Seq::empty()
    } else if src.offsets[from as int] < start {
        seq![' '] + marks(src, start, end, from + 1, to)
    } else if src.offsets[from as int] < end {
        seq!['^'] + marks(src, start, end, from + 1, to)
    } else {
        Seq::empty()
    }
}

/// Whether the line whose characters have the indices from `from` up to `to`
/// shares bytes with the range from `start` to `end`.
pub open spec fn touches(src: Stream, start: nat, end: nat, from: nat, to: nat) -> bool {
    let first = if start > src.start_of(from) {
        start
    } else {
        src.start_of(from)
    };
    let last = if end < src.start_of(to) {
        end
    } else {
        src.start_of(to)
    };
    first < last
}

/// The excerpt for one line: the line behind its label and, under it, the
/// marks. Nothing for a line that shares no byte with the range.
pub open spec fn excerpt(src: Stream, start: nat, end: nat, from: nat, to: nat, line: nat) -> Seq<
    char,
> {
    if touches(src, start, end, from, to) {
        line_label(line + 1) + src.chars.subrange(from as int, to as int) + seq!['\n'] + repeated(
            ' ',
            line_label(line + 1).len(),
        ) + marks(src, start, end, from, to) + seq!['\n']
    } else {
        Seq::empty()
    }
}

/// Where a walk over the stream stands: the line and the column that were
/// counted, and the index at which the line started.
pub struct Walk {
    pub line: nat,
    pub column: nat,
    pub line_start: nat,
}

/// What is shown of an error from index `k` of the stream on. Where a
/// character starts at the error's start comes the locator, with the line
/// and the column of that character, both counted from one; a line feed
/// counts to the line that it ends. At the end of each line comes its
/// excerpt.
pub open spec fn shown_from(
    src: Stream,
    start: nat,
    end: nat,
    message: Seq<char>,
    k: nat,
    at: Walk,
) -> Seq<char>
    decreases src.chars.len() - k,
{
    if k >= src.chars.len() || k >= src.offsets.len() {
        excerpt(src, start, end, at.line_start, src.chars.len(), at.line)
    } else {
        let ends_line = src.chars[k as int] == '\n';
        let behind = if ends_line {
            Walk { line: at.line + 1, column: 0, line_start: k + 1 }
        } else {
            Walk { line: at.line, column: at.column + 1, line_start: at.line_start }
        };
        (if src.offsets[k as int] == start {
            locator(at.line + 1, at.column + 1, message)
        } else {
            Seq::empty()
        }) + (if ends_line {
            excerpt(src, start, end, at.line_start, k, at.line)
        } else {
            Seq::empty()
        }) + shown_from(src, start, end, message, k + 1, behind)
    }
}

/// What is shown of an error in a source: the locator, where a character
/// starts at the error's start, and the excerpt of each line that the error
/// shares bytes with.
pub open spec fn shown(src: Stream, start: nat, end: nat, message: Seq<char>) -> Seq<char> {
    shown_from(src, start, end, message, 0, Walk { line: 0, column: 0, line_start: 0 })
}

/// Appends a number in decimal digits.
fn push_decimal(out: &mut String, n: u128)
    ensures
        final(out)@ == old(out)@ + decimal(n as nat),
    decreases n,
{
    if n >= 10 {
        push_decimal(out, n / 10);
    }
    let d = n % 10;
    let c = if d == 0 {
        '0'
    } else if d == 1 {
        '1'
    } else if d == 2 {
        '2'
    } else if d == 3 {
        '3'
    } else if d == 4 {
        '4'
    } else if d == 5 {
        '5'
    } else if d == 6 {
        '6'
    } else if d == 7 {
        '7'
    } else if d == 8 {
        '8'
    } else {
        '9'
    };
    out.push(c);
}

/// Appends a character a number of times.
fn push_repeated(out: &mut String, c: char, count: usize)
    ensures
        final(out)@ == old(out)@ + repeated(c, count as nat),
{
    let mut i: usize = 0;
    while i < count
        invariant
            i <= count,
            out@ == old(out)@ + repeated(c, i as nat),
        decreases count - i,
    {
        out.push(c);
        i = i + 1;
    }
}

/// What stands before a line of the excerpt.
fn label_text(number: u128) -> (label: String)
    ensures
        label@ == line_label(number as nat),
{
    let mut digits = String::new();
    push_decimal(&mut digits, number);
    let count = digits.as_str().unicode_len();
    let mut label = String::new();
    label.push(' ');
    if count < 3 {
        push_repeated(&mut label, ' ', 3 - count);
    } else {
        push_repeated(&mut label, ' ', 0);
    }
    label.append(digits.as_str());
    label.push(' ');
    label.push('|');
    label.push(' ');
    label
}

/// Appends the locator of an error.
fn push_locator(out: &mut String, line: u128, column: u128, message: &str)
    ensures
        final(out)@ == old(out)@ + locator(line as nat, column as nat, message@),
{
    out.append("line ");
    push_decimal(out, line);
    out.append(", column ");
    push_decimal(out, column);
    out.push('\n');
    out.append(message);
    out.push('\n');
}

/// Appends the marks under a line.
fn push_marks(out: &mut String, iter: &SourceIter, start: usize, end: usize, from: usize, to: usize)
    requires
        iter.wf(),
        from <= to <= iter.stream().chars.len(),
    ensures
        final(out)@ == old(out)@ + marks(iter.stream(), start as nat, end as nat, from as nat, to as nat),
{
    let ghost src = iter.stream();
    let mut k = from;
    let mut more = true;
    while more && k < to
        invariant
            iter.wf(),
            src == iter.stream(),
            from <= k <= to <= src.chars.len(),
            more ==> out@ + marks(src, start as nat, end as nat, k as nat, to as nat) == old(out)@
                + marks(src, start as nat, end as nat, from as nat, to as nat),
            !more ==> out@ == old(out)@ + marks(
                src,
                start as nat,
                end as nat,
                from as nat,
                to as nat,
            ),
        decreases to - k, if more { 1nat } else { 0nat },
    {
        let offset = iter.start_of(k);
        if offset < start {
            out.push(' ');
            k = k + 1;
        } else if offset < end {
            out.push('^');
            k = k + 1;
        } else {
            more = false;
        }
    }
}

/// Appends the excerpt for one line.
fn highlight_line(
    out: &mut String,
    iter: &SourceIter,
    start: usize,
    end: usize,
    from: usize,
    to: usize,
    line: usize,
)
    requires
        iter.wf(),
        from <= to <= iter.stream().chars.len(),
    ensures
        final(out)@ == old(out)@ + excerpt(
            iter.stream(),
            start as nat,
            end as nat,
            from as nat,
            to as nat,
            line as nat,
        ),
{
    let ghost src = iter.stream();
    let line_first = iter.start_of(from);
    let line_last = iter.start_of(to);
    let first = if start > line_first {
        start
    } else {
        line_first
    };
    let last = if end < line_last {
        end
    } else {
        line_last
    };
    if first >= last {
        return ;
    }
    let number: u128 = line as u128 + 1;
    let label = label_text(number);
    out.append(label.as_str());
    let mut k = from;
    while k < to
        invariant
            iter.wf(),
            src == iter.stream(),
            from <= k <= to <= src.chars.len(),
            out@ == old(out)@ + label@ + src.chars.subrange(from as int, k as int),
        decreases to - k,
    {
        out.push(iter.char_at(k));
        k = k + 1;
    }
    out.push('\n');
    push_repeated(out, ' ', label.as_str().unicode_len());
    push_marks(out, iter, start, end, from, to);
    out.push('\n');
}

/// Something that can be shown to a reader who has the source at hand.
pub trait DisplayError {
    /// What is shown, for a source with these characters.
    spec fn shown_in(&self, source: Seq<char>) -> Seq<char>;

    /// What is shown, for a source.
    fn display(&self, source: &str) -> (out: String)
        ensures
            out@ == self.shown_in(source@),
    ;
}

impl DisplayError for Error {
    open spec fn shown_in(&self, source: Seq<char>) -> Seq<char> {
        shown(
            stream_of(source),
            self.range.start as nat,
            self.range.end as nat,
            message_of(self.error),
        )
    }

    /// Shows where the error is and what it is: the line and the column of
    /// the character at which it starts and what it says, then each line of
    /// the source that it touches, with carets under the characters that
    /// belong to it.
    fn display(&self, source: &str) -> (out: String) {
        let iter = SourceIter::new(source);
        let ghost src = iter.stream();
        let start = self.range.start;
        let end = self.range.end;
        let message = self.error.message();
        let n = iter.len();
        let mut out = String::new();
        let mut k: usize = 0;
        let mut line: usize = 0;
        let mut column: usize = 0;
        let mut line_start: usize = 0;
        let ghost goal = shown(src, start as nat, end as nat, message@);
        while k < n
            invariant
                iter.wf(),
                src == iter.stream(),
                n == src.chars.len(),
                k <= n,
                line <= k,
                column <= k,
                line_start <= k,
                out@ + shown_from(
                    src,
                    start as nat,
                    end as nat,
                    message@,
                    k as nat,
                    Walk { line: line as nat, column: column as nat, line_start: line_start as nat },
                ) == goal,
            decreases n - k,
        {
            if iter.start_of(k) == start {
                push_locator(&mut out, line as u128 + 1, column as u128 + 1, message);
            }
            if iter.char_at(k) == '\n' {
                highlight_line(&mut out, &iter, start, end, line_start, k, line);
                line = line + 1;
                column = 0;
                line_start = k + 1;
            } else {
                column = column + 1;
            }
            k = k + 1;
        }
        highlight_line(&mut out, &iter, start, end, line_start, n, line);
        out
    }
}

impl Error {
    /// What the error says.
    pub fn message(&self) -> (text: &'static str)
        ensures
            text@ == message_of(self.error),
    {
        self.error.message()
    }
}

// ---------------------------------------------------------------------------
// What is shown rests on characters, not on bytes

/// In a well-formed stream, to compare the offset of a character with the
/// start of the character `i`, or with the end of the character before `j`,
/// is to compare indices.
pub proof fn lemma_offsets_order(src: Stream, i: nat, j: nat, k: int)
    requires
        src.wf(),
        0 <= k < src.chars.len(),
    ensures
        (src.offsets[k] < src.start_of(i)) == (k < i),
        (src.offsets[k] == src.start_of(i)) == (k == i),
        (src.offsets[k] < src.end_of(j)) == (k < j),
{
}

/// Whether character `i` of a stream of `len` characters starts before the
/// character `to`, or before the end of the stream where `to` is its length.
pub open spec fn starts_before(len: nat, i: nat, to: nat) -> bool {
    i < len && i < to
}

/// In a well-formed stream, whether a line shares bytes with the range from
/// the start of character `i` to the end of the character before `j` can be
/// told from the indices.
pub proof fn lemma_touches(src: Stream, i: nat, j: nat, from: nat, to: nat)
    requires
        src.wf(),
        from <= to <= src.chars.len(),
    ensures
        touches(src, src.start_of(i), src.end_of(j), from, to) == (starts_before(
            src.chars.len(),
            i,
            j,
        ) && starts_before(src.chars.len(), i, to) && starts_before(src.chars.len(), from, j)
            && from < to),
{
    let len = src.chars.len();
    if i < len {
        lemma_offsets_order(src, to, j, i as int);
    }
    if from < len {
        lemma_offsets_order(src, to, j, from as int);
    }
}

/// Two streams of the same characters get the same marks for the same
/// characters.
pub proof fn lemma_marks_same(a: Stream, b: Stream, i: nat, j: nat, from: nat, to: nat)
    requires
        a.wf(),
        b.wf(),
        a.chars == b.chars,
        to <= a.chars.len(),
    ensures
        marks(a, a.start_of(i), a.end_of(j), from, to) == marks(
            b,
            b.start_of(i),
            b.end_of(j),
            from,
            to,
        ),
    decreases to - from,
{
    if from < to {
        lemma_offsets_order(a, i, j, from as int);
        lemma_offsets_order(b, i, j, from as int);
        lemma_marks_same(a, b, i, j, from + 1, to);
    }
}

/// Two streams of the same characters get the same excerpt for the same
/// characters.
pub proof fn lemma_excerpt_same(a: Stream, b: Stream, i: nat, j: nat, from: nat, to: nat, line: nat)
    requires
        a.wf(),
        b.wf(),
        a.chars == b.chars,
        from <= to <= a.chars.len(),
    ensures
        excerpt(a, a.start_of(i), a.end_of(j), from, to, line) == excerpt(
            b,
            b.start_of(i),
            b.end_of(j),
            from,
            to,
            line,
        ),
{
    lemma_touches(a, i, j, from, to);
    lemma_touches(b, i, j, from, to);
    lemma_marks_same(a, b, i, j, from, to);
}

/// Two streams of the same characters show the same from any index on.
pub proof fn lemma_shown_same(
    a: Stream,
    b: Stream,
    i: nat,
    j: nat,
    message: Seq<char>,
    k: nat,
    at: Walk,
)
    requires
        a.wf(),
        b.wf(),
        a.chars == b.chars,
        at.line_start <= k <= a.chars.len(),
    ensures
        shown_from(a, a.start_of(i), a.end_of(j), message, k, at) == shown_from(
            b,
            b.start_of(i),
            b.end_of(j),
            message,
            k,
            at,
        ),
    decreases a.chars.len() - k,
{
    if k >= a.chars.len() {
        lemma_excerpt_same(a, b, i, j, at.line_start, a.chars.len(), at.line);
    } else {
        let ends_line = a.chars[k as int] == '\n';
        let behind = if ends_line {
            Walk { line: at.line + 1, column: 0, line_start: k + 1 }
        } else {
            Walk { line: at.line, column: at.column + 1, line_start: at.line_start }
        };
        lemma_excerpt_same(a, b, i, j, at.line_start, k, at.line);
        lemma_offsets_order(a, i, j, k as int);
        lemma_offsets_order(b, i, j, k as int);
        lemma_shown_same(a, b, i, j, message, k + 1, behind);
    }
}

/// Sources that differ only in how their lines end show the same for an
/// error at the same characters: the same line and column, the same lines,
/// the same carets. The error reaches from the start of the character `i`
/// of the stream to the end of the character before `j`.
pub proof fn law_line_endings(a: Seq<char>, b: Seq<char>, i: nat, j: nat, message: Seq<char>)
    requires
        stream_of(a).chars == stream_of(b).chars,
    ensures
        shown(stream_of(a), stream_of(a).start_of(i), stream_of(a).end_of(j), message) == shown(
            stream_of(b),
            stream_of(b).start_of(i),
            stream_of(b).end_of(j),
            message,
        ),
{
    lemma_stream_wf(a, a.len());
    lemma_stream_wf(b, b.len());
    lemma_shown_same(
        stream_of(a),
        stream_of(b),
        i,
        j,
        message,
        0,
        Walk { line: 0, column: 0, line_start: 0 },
    );
}

} // verus!
