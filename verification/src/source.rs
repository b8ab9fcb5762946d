//! Source text as a stream of characters, each with the byte offset at which
//! it starts, with every line ending unified to a single line feed.

use vstd::prelude::*;
use vstd::utf8::*;

verus! {

/// Number of bytes that a character takes in UTF-8.
pub open spec fn utf8_width(c: char) -> nat {
    let code = c as u32;
    if code < 0x80 {
        1
    } else if code < 0x800 {
        2
    } else if code < 0x10000 {
        3
    } else {
        4
    }
}

/// A line feed that directly follows a carriage return belongs to the same
/// line ending and is not seen on its own.
pub open spec fn joins_line_break(raw: Seq<char>, k: int) -> bool {
    0 < k < raw.len() && raw[k] == '\n' && raw[k - 1] == '\r'
}

/// The character as a reader of the stream sees it: a carriage return reads as
/// a line feed.
pub open spec fn unified(c: char) -> char {
    if c == '\r' {
        '\n'
    } else {
        c
    }
}

/// Characters of a text with the byte offset of each, and the text's length in
/// bytes.
pub struct Stream {
    pub chars: Seq<char>,
    pub offsets: Seq<nat>,
    pub length: nat,
}

impl Stream {
    /// Byte offset at which the character with this index starts; at the end of
    /// the stream, the length of the text.
    pub open spec fn start_of(self, i: nat) -> nat {
        if i < self.chars.len() {
            self.offsets[i as int]
        } else {
            self.length
        }
    }

    /// Byte offset just behind the character before this index.
    pub open spec fn end_of(self, j: nat) -> nat {
        if j == 0 {
            0
        } else if j <= self.chars.len() {
            self.offsets[j - 1] + utf8_width(self.chars[j - 1])
        } else {
            self.length
        }
    }

    /// Offsets rise from character to character and stay inside the text.
    pub open spec fn wf(self) -> bool {
        &&& self.offsets.len() == self.chars.len()
        &&& forall|i: int, j: int|
            0 <= i < j < self.chars.len() ==> #[trigger] self.offsets[i] + utf8_width(self.chars[i])
                <= #[trigger] self.offsets[j]
        &&& forall|i: int|
            0 <= i < self.chars.len() ==> #[trigger] self.offsets[i] + utf8_width(self.chars[i])
                <= self.length
    }
}

/// A run of characters that is not empty takes a range of bytes that is not
/// empty and lies in the text.
pub proof fn lemma_span(stream: Stream, i: nat, j: nat)
    requires
        stream.wf(),
        i < j <= stream.chars.len(),
    ensures
        stream.start_of(i) < stream.end_of(j) <= stream.length,
{
}

/// A longer run of characters ends no earlier.
pub proof fn lemma_end_grows(stream: Stream, i: nat, j: nat)
    requires
        stream.wf(),
        i <= j <= stream.chars.len(),
    ensures
        stream.end_of(i) <= stream.end_of(j) <= stream.length,
{
}

/// The stream of the first `k` characters of a text.
pub open spec fn stream_upto(raw: Seq<char>, k: nat) -> Stream
    decreases k,
{
    if k == 0 {
        Stream { chars: Seq::empty(), offsets: Seq::empty(), length: 0 }
    } else {
        let before = stream_upto(raw, (k - 1) as nat);
        let c = raw[k - 1];
        if joins_line_break(raw, k - 1) {
            Stream { chars: before.chars, offsets: before.offsets, length: before.length + 1 }
        } else {
            Stream {
                chars: before.chars.push(unified(c)),
                offsets: before.offsets.push(before.length),
                length: before.length + utf8_width(c),
            }
        }
    }
}

/// The stream of a whole text.
pub open spec fn stream_of(raw: Seq<char>) -> Stream {
    stream_upto(raw, raw.len())
}

/// Every prefix of a text has a well-formed stream.
pub proof fn lemma_stream_wf(raw: Seq<char>, k: nat)
    requires
        k <= raw.len(),
    ensures
        stream_upto(raw, k).wf(),
    decreases k,
{
    if k > 0 {
        lemma_stream_wf(raw, (k - 1) as nat);
    }
}

/// A longer prefix has no fewer bytes.
pub proof fn lemma_stream_length_grows(raw: Seq<char>, k: nat, n: nat)
    requires
        k <= n <= raw.len(),
    ensures
        stream_upto(raw, k).length <= stream_upto(raw, n).length,
    decreases n,
{
    if k < n {
        lemma_stream_length_grows(raw, k, (n - 1) as nat);
    }
}

/// One more character adds its width to the length of the encoding.
proof fn lemma_encoded_push(s: Seq<char>, c: char)
    ensures
        encode_utf8(s.push(c)).len() == encode_utf8(s).len() + utf8_width(c),
    decreases s.len(),
{
    char_is_scalar(c);
    if s.len() == 0 {
        assert(s.push(c).drop_first() =~= Seq::<char>::empty());
        assert(encode_utf8(Seq::<char>::empty()).len() == 0);
    } else {
        assert(s.push(c).drop_first() =~= s.drop_first().push(c));
        lemma_encoded_push(s.drop_first(), c);
    }
}

/// The stream's length is the number of bytes of the text in UTF-8.
pub proof fn lemma_stream_length(raw: Seq<char>, k: nat)
    requires
        k <= raw.len(),
    ensures
        stream_upto(raw, k).length == encode_utf8(raw.take(k as int)).len(),
    decreases k,
{
    if k > 0 {
        lemma_stream_length(raw, (k - 1) as nat);
        assert(raw.take(k as int) =~= raw.take(k - 1).push(raw[k - 1]));
        lemma_encoded_push(raw.take(k - 1), raw[k - 1]);
    }
}

/// The end of the encoding of a prefix of a text is a boundary between
/// characters in the encoding of the text.
pub proof fn lemma_prefix_boundary(raw: Seq<char>, k: nat)
    requires
        k <= raw.len(),
    ensures
        is_char_boundary(encode_utf8(raw), encode_utf8(raw.take(k as int)).len() as int),
    decreases k,
{
    let bytes = encode_utf8(raw);
    encode_utf8_valid_utf8(raw);
    if k > 0 {
        let rest = raw.drop_first();
        encode_utf8_first_scalar(raw);
        assert(pop_first_scalar(bytes) =~= encode_utf8(rest));
        lemma_prefix_boundary(rest, (k - 1) as nat);
        encode_utf8_valid_utf8(rest);
        let front = raw.take(k as int);
        assert(front.drop_first() =~= rest.take(k - 1));
        assert(encode_scalar(raw[0] as u32).len() > 0) by {
            char_is_scalar(raw[0]);
        }
    }
}

/// Each character of the stream of a prefix starts where the encoding of a
/// prefix of the text ends, and so does what follows it.
pub proof fn lemma_stream_offsets(raw: Seq<char>, k: nat, i: int)
    requires
        k <= raw.len(),
        0 <= i < stream_upto(raw, k).chars.len(),
    ensures
        exists|at: nat|
            at < k && stream_upto(raw, k).offsets[i] == #[trigger] encode_utf8(
                raw.take(at as int),
            ).len() && stream_upto(raw, k).offsets[i] + utf8_width(stream_upto(raw, k).chars[i])
                == encode_utf8(raw.take((at + 1) as int)).len(),
    decreases k,
{
    if k > 0 {
        let before = stream_upto(raw, (k - 1) as nat);
        lemma_stream_wf(raw, (k - 1) as nat);
        if i < before.chars.len() {
            lemma_stream_offsets(raw, (k - 1) as nat, i);
        } else {
            lemma_stream_length(raw, (k - 1) as nat);
            lemma_stream_length(raw, k);
        }
    }
}

/// Every span that the stream gives lies on boundaries between characters:
/// the start of a character of the stream and the end of one are places
/// where one character of the text ends in UTF-8 and the next begins.
pub proof fn law_offsets_are_boundaries(raw: Seq<char>, i: nat)
    ensures
        is_char_boundary(encode_utf8(raw), stream_of(raw).start_of(i) as int),
        is_char_boundary(encode_utf8(raw), stream_of(raw).end_of(i) as int),
{
    let stream = stream_of(raw);
    let bytes = encode_utf8(raw);
    encode_utf8_valid_utf8(raw);
    is_char_boundary_start_end_of_seq(bytes);
    lemma_stream_length(raw, raw.len());
    assert(raw.take(raw.len() as int) =~= raw);
    lemma_stream_wf(raw, raw.len());
    if i < stream.chars.len() {
        lemma_stream_offsets(raw, raw.len(), i as int);
        let at = choose|at: nat|
            at < raw.len() && stream.offsets[i as int] == #[trigger] encode_utf8(
                raw.take(at as int),
            ).len() && stream.offsets[i as int] + utf8_width(stream.chars[i as int])
                == encode_utf8(raw.take((at + 1) as int)).len();
        lemma_prefix_boundary(raw, at);
    }
    if 0 < i <= stream.chars.len() {
        lemma_stream_offsets(raw, raw.len(), i - 1);
        let at = choose|at: nat|
            at < raw.len() && stream.offsets[i - 1] == #[trigger] encode_utf8(
                raw.take(at as int),
            ).len() && stream.offsets[i - 1] + utf8_width(stream.chars[i - 1]) == encode_utf8(
                raw.take((at + 1) as int),
            ).len();
        lemma_prefix_boundary(raw, at + 1);
    }
}

/// The stream of a prefix rests on that prefix alone.
pub proof fn lemma_stream_prefix(a: Seq<char>, b: Seq<char>, k: nat)
    requires
        k <= a.len(),
        k <= b.len(),
        a.take(k as int) == b.take(k as int),
    ensures
        stream_upto(a, k) == stream_upto(b, k),
    decreases k,
{
    if k > 0 {
        assert(a.take(k - 1) =~= a.take(k as int).take(k - 1));
        assert(b.take(k - 1) =~= b.take(k as int).take(k - 1));
        lemma_stream_prefix(a, b, (k - 1) as nat);
        assert(a[k - 1] == a.take(k as int)[k - 1]);
        if k > 1 {
            assert(a[k - 2] == a.take(k as int)[k - 2]);
        }
    }
}

/// A text with a carriage return put before each line feed.
pub open spec fn with_returns(text: Seq<char>) -> Seq<char>
    decreases text.len(),
{
    if text.len() == 0 {
        Seq::empty()
    } else if text.last() == '\n' {
        with_returns(text.drop_last()) + seq!['\r', '\n']
    } else {
        with_returns(text.drop_last()).push(text.last())
    }
}

/// A text that holds no carriage return reads as it is written.
pub proof fn lemma_plain_stream(text: Seq<char>, k: nat)
    requires
        k <= text.len(),
        forall|i: int| 0 <= i < text.len() ==> text[i] != '\r',
    ensures
        stream_upto(text, k).chars == text.take(k as int),
    decreases k,
{
    if k > 0 {
        lemma_plain_stream(text, (k - 1) as nat);
    }
}

/// Line endings are unified: a text whose lines end in a carriage return
/// and a line feed reads as the same text with line feeds alone.
pub proof fn law_returns_unified(text: Seq<char>)
    requires
        forall|i: int| 0 <= i < text.len() ==> text[i] != '\r',
    ensures
        stream_of(with_returns(text)).chars == text,
        stream_of(text).chars == text,
        with_returns(text).len() == 0 || with_returns(text).last() == text.last(),
    decreases text.len(),
{
    lemma_plain_stream(text, text.len());
    if text.len() > 0 {
        let front = text.drop_last();
        let made = with_returns(front);
        law_returns_unified(front);
        let whole = with_returns(text);
        assert(whole.take(made.len() as int) =~= made);
        assert(made.take(made.len() as int) =~= made);
        lemma_stream_prefix(whole, made, made.len());
        if text.last() == '\n' {
            assert(stream_upto(whole, made.len() + 1).chars == front.push('\n'));
        } else {
            assert(!joins_line_break(whole, made.len() as int));
        }
    }
}

/// Number of bytes that a character takes in UTF-8.
pub fn char_width(c: char) -> (w: usize)
    ensures
        w == utf8_width(c),
{
    let code: u32 = c as u32;
    if code < 0x80 {
        1
    } else if code < 0x800 {
        2
    } else if code < 0x10000 {
        3
    } else {
        4
    }
}

/// A cursor over the stream of a text. It yields each character with its byte
/// offset; its position is a plain index that can be saved and put back.
#[derive(Debug, Clone)]
pub struct SourceIter {
    chars: Vec<char>,
    offsets: Vec<usize>,
    length: usize,
    index: usize,
}

impl SourceIter {
    /// The stream that the cursor moves over.
    pub closed spec fn stream(&self) -> Stream {
        Stream {
            chars: self.chars@,
            offsets: self.offsets@.map_values(|o: usize| o as nat),
            length: self.length as nat,
        }
    }

    /// Index of the character that comes next.
    pub closed spec fn index(&self) -> nat {
        self.index as nat
    }

    /// The stream is well formed and the cursor stands in it.
    pub open spec fn wf(&self) -> bool {
        &&& self.stream().wf()
        &&& self.index() <= self.stream().chars.len()
    }

    /// A cursor at the start of the text.
    pub fn new(source: &str) -> (it: SourceIter)
        ensures
            it.wf(),
            it.stream() == stream_of(source@),
            it.index() == 0,
    {
        let total = source.as_bytes().len();
        let ghost raw = source@;
        let mut chars: Vec<char> = Vec::new();
        let mut offsets: Vec<usize> = Vec::new();
        let mut length: usize = 0;
        let mut after_return = false;
        proof {
            lemma_stream_length(raw, raw.len());
            assert(raw.take(raw.len() as int) =~= raw);
        }
        for c in walk: source.chars()
            invariant
                walk.seq() == raw,
                total == stream_of(raw).length,
                after_return == (walk.index() > 0 && raw[walk.index() - 1] == '\r'),
                chars@ == stream_upto(raw, walk.index() as nat).chars,
                offsets@.map_values(|o: usize| o as nat) == stream_upto(
                    raw,
                    walk.index() as nat,
                ).offsets,
                length == stream_upto(raw, walk.index() as nat).length,
        {
            proof {
                lemma_stream_length_grows(raw, (walk.index() + 1) as nat, raw.len());
            }
            if after_return && c == '\n' {
                length = length + 1;
            } else {
                let seen = if c == '\r' {
                    '\n'
                } else {
                    c
                };
                chars.push(seen);
                offsets.push(length);
                length = length + char_width(c);
            }
            after_return = c == '\r';
        }
        proof {
            lemma_stream_wf(raw, raw.len());
        }
        SourceIter { chars, offsets, length, index: 0 }
    }

    /// Number of characters in the stream.
    pub fn len(&self) -> (n: usize)
        requires
            self.wf(),
        ensures
            n == self.stream().chars.len(),
    {
        self.chars.len()
    }

    /// Length of the text in bytes.
    pub fn byte_len(&self) -> (n: usize)
        ensures
            n == self.stream().length,
    {
        self.length
    }

    /// Index of the character that comes next.
    pub fn position(&self) -> (i: usize)
        ensures
            i == self.index(),
    {
        self.index
    }

    /// Puts the cursor at an index of the stream.
    pub fn seek(&mut self, index: usize)
        requires
            old(self).wf(),
            index <= old(self).stream().chars.len(),
        ensures
            final(self).wf(),
            final(self).stream() == old(self).stream(),
            final(self).index() == index,
    {
        self.index = index;
    }

    /// The character at an index of the stream.
    pub fn char_at(&self, i: usize) -> (c: char)
        requires
            self.wf(),
            i < self.stream().chars.len(),
        ensures
            c == self.stream().chars[i as int],
    {
        self.chars[i]
    }

    /// Byte offset at which the character at an index starts; at the end of the
    /// stream, the length of the text.
    pub fn start_of(&self, i: usize) -> (offset: usize)
        requires
            self.wf(),
        ensures
            offset == self.stream().start_of(i as nat),
    {
        if i < self.chars.len() {
            self.offsets[i]
        } else {
            self.length
        }
    }

    /// Byte offset just behind the character before an index.
    pub fn end_of(&self, j: usize) -> (offset: usize)
        requires
            self.wf(),
        ensures
            offset == self.stream().end_of(j as nat),
    {
        if j == 0 {
            0
        } else if j <= self.chars.len() {
            assert(self.stream().offsets[j - 1] + utf8_width(self.stream().chars[j - 1])
                <= self.stream().length);
            self.offsets[j - 1] + char_width(self.chars[j - 1])
        } else {
            self.length
        }
    }

    /// The next character with its byte offset, without moving.
    pub fn peek(&self) -> (r: Option<(usize, char)>)
        requires
            self.wf(),
        ensures
            r == next_item(self.stream(), self.index()),
    {
        if self.index < self.chars.len() {
            Some((self.offsets[self.index], self.chars[self.index]))
        } else {
            None
        }
    }

    /// The next character with its byte offset; the cursor moves behind it.
    pub fn next(&mut self) -> (r: Option<(usize, char)>)
        requires
            old(self).wf(),
        ensures
            final(self).wf(),
            final(self).stream() == old(self).stream(),
            r == next_item(old(self).stream(), old(self).index()),
            final(self).index() == if r is Some {
                old(self).index() + 1
            } else {
                old(self).index()
            },
    {
        if self.index < self.chars.len() {
            let item = (self.offsets[self.index], self.chars[self.index]);
            self.index = self.index + 1;
            Some(item)
        } else {
            None
        }
    }
}

/// What a cursor at index `i` of a stream yields.
pub open spec fn next_item(stream: Stream, i: nat) -> Option<(usize, char)> {
    if i < stream.chars.len() {
        Some((stream.offsets[i as int] as usize, stream.chars[i as int]))
    } else {
        None
    }
}

} // verus!
