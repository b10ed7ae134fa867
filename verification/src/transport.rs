//! Lines on the wire: a stream of bytes cut at line feeds.
//!
//! A line ends with a line feed. A carriage return just before the line feed
//! belongs to the line ending, not to the line. What the peer sent last, if no
//! line feed follows it, counts as a line once the stream has ended.

use vstd::prelude::*;
use vstd::slice::*;
use vstd::string::*;
use vstd::utf8::*;

verus! {

/// The byte that ends a line.
pub const LINE_FEED: u8 = 10;

/// The byte that may stand before the line feed.
pub const CARRIAGE_RETURN: u8 = 13;

/// The number of bytes in front of the first line feed in `bytes`; the length
/// of `bytes` if it holds none.
pub open spec fn line_length(bytes: Seq<u8>) -> nat
    decreases bytes.len(),
{
    if bytes.len() == 0 || bytes[0] == LINE_FEED {
        0
    } else {
        1 + line_length(bytes.drop_first())
    }
}

/// Whether `bytes` holds a line feed.
pub open spec fn has_line_feed(bytes: Seq<u8>) -> bool {
    line_length(bytes) < bytes.len()
}

/// `line` without the carriage return at its end, if it has one.
pub open spec fn without_carriage_return(line: Seq<u8>) -> Seq<u8> {
    if line.len() > 0 && line.last() == CARRIAGE_RETURN {
        line.drop_last()
    } else {
        line
    }
}

/// What a [`LineBuffer`] holds: the bytes that were received and not yet
/// handed out as lines, and whether the stream has ended.
pub ghost struct LineBufferView {
    pub pending: Seq<u8>,
    pub ended: bool,
}

impl LineBufferView {
    /// The next line, if there is one: the bytes up to the first line feed,
    /// or, when the stream has ended without one, all the bytes that are left.
    pub open spec fn first_line(self) -> Option<Seq<u8>> {
        if has_line_feed(self.pending) {
            Some(without_carriage_return(self.pending.take(line_length(self.pending) as int)))
        } else if self.ended && self.pending.len() > 0 {
            Some(without_carriage_return(self.pending))
        } else {
            None
        }
    }

    /// What is left once the next line has been taken.
    pub open spec fn after_first_line(self) -> LineBufferView {
        if has_line_feed(self.pending) {
            LineBufferView {
                pending: self.pending.skip(line_length(self.pending) as int + 1),
                ended: self.ended,
            }
        } else if self.ended {
            LineBufferView { pending: Seq::<u8>::empty(), ended: true }
        } else {
            self
        }
    }
}

impl LineBufferView {
    /// Every line that can be taken, in the order in which they come out.
    pub open spec fn lines(self) -> Seq<LineView>
        decreases self.pending.len(),
    {
        match self.first_line() {
            Some(bytes) => seq![line_of(bytes)] + self.after_first_line().lines(),
            None => Seq::<LineView>::empty(),
        }
    }

    /// What is left once every line has been taken.
    pub open spec fn unread(self) -> LineBufferView
        decreases self.pending.len(),
    {
        if self.first_line() is Some {
            self.after_first_line().unread()
        } else {
            self
        }
    }
}

/// The first line feed of `bytes` is where `line_length` says, and no byte in
/// front of it is one.
pub proof fn lemma_line_length(bytes: Seq<u8>)
    ensures
        line_length(bytes) <= bytes.len(),
        forall|i: int| 0 <= i < line_length(bytes) ==> bytes[i] != LINE_FEED,
        has_line_feed(bytes) ==> bytes[line_length(bytes) as int] == LINE_FEED,
        has_line_feed(bytes) <==> bytes.contains(LINE_FEED),
    decreases bytes.len(),
{
    if bytes.len() == 0 {
    } else if bytes[0] == LINE_FEED {
        assert(bytes.contains(LINE_FEED));
    } else {
        let rest = bytes.drop_first();
        lemma_line_length(rest);
        assert forall|i: int| 0 <= i < line_length(bytes) implies bytes[i] != LINE_FEED by {
            if i > 0 {
                assert(bytes[i] == rest[i - 1]);
            }
        }
        if has_line_feed(bytes) {
            assert(bytes[line_length(bytes) as int] == rest[line_length(rest) as int]);
            assert(bytes.contains(LINE_FEED));
        }
        if bytes.contains(LINE_FEED) {
            let i = choose|i: int| 0 <= i < bytes.len() && bytes[i] == LINE_FEED;
            assert(rest[i - 1] == LINE_FEED);
            assert(rest.contains(LINE_FEED));
        }
    }
}

/// If the first `n` bytes hold no line feed, the first line is at least `n`
/// bytes long; if the byte after them is a line feed, it is exactly that long.
pub proof fn lemma_line_length_from_prefix(bytes: Seq<u8>, n: int)
    requires
        0 <= n <= bytes.len(),
        forall|i: int| 0 <= i < n ==> bytes[i] != LINE_FEED,
    ensures
        line_length(bytes) >= n,
        n < bytes.len() && bytes[n] == LINE_FEED ==> line_length(bytes) == n,
    decreases n,
{
    if n > 0 {
        let rest = bytes.drop_first();
        assert forall|i: int| 0 <= i < n - 1 implies rest[i] != LINE_FEED by {
            assert(rest[i] == bytes[i + 1]);
        }
        lemma_line_length_from_prefix(rest, n - 1);
    }
}

/// Collects the bytes of a stream as they arrive and hands them out line by
/// line.
#[derive(Debug)]
pub struct LineBuffer {
    /// Everything received since the buffer was last packed.
    data: Vec<u8>,
    /// `data[..start]` has been handed out.
    start: usize,
    /// The first `clean` bytes from `start` on are known to hold no line feed.
    clean: usize,
    /// Whether the stream has ended.
    ended: bool,
}

impl View for LineBuffer {
    type V = LineBufferView;

    closed spec fn view(&self) -> LineBufferView {
        LineBufferView { pending: self.data@.skip(self.start as int), ended: self.ended }
    }
}

impl LineBuffer {
    #[verifier::type_invariant]
    spec fn well_formed(self) -> bool {
        &&& self.start + self.clean <= self.data.len()
        &&& forall|i: int|
            self.start <= i < self.start + self.clean ==> self.data@[i] != LINE_FEED
    }

    /// A buffer that holds nothing, for a stream that has not ended.
    pub fn new() -> (buffer: LineBuffer)
        ensures
            buffer@ == (LineBufferView { pending: Seq::<u8>::empty(), ended: false }),
    {
        let buffer = LineBuffer { data: Vec::new(), start: 0, clean: 0, ended: false };
        assert(buffer.data@.skip(0) =~= Seq::<u8>::empty());
        buffer
    }

    /// Takes in what the stream delivered next.
    pub fn push(&mut self, chunk: &[u8])
        ensures
            final(self)@ == (LineBufferView {
                pending: old(self)@.pending + chunk@,
                ended: old(self)@.ended,
            }),
    {
        proof {
            use_type_invariant(&*self);
        }
        let mut data = slice_to_vec(
            slice_subrange(self.data.as_slice(), self.start, self.data.len()),
        );
        data.extend_from_slice(chunk);
        let clean = self.clean;
        let ended = self.ended;
        assert(data@ =~= old(self)@.pending + chunk@);
        assert(data@.skip(0) =~= data@);
        *self = LineBuffer { data, start: 0, clean, ended };
    }

    /// Whether the stream has ended.
    pub fn has_ended(&self) -> (ended: bool)
        ensures
            ended == self@.ended,
    {
        self.ended
    }

    /// Records that the stream has ended: no more bytes will come.
    pub fn end(&mut self)
        ensures
            final(self)@ == (LineBufferView { pending: old(self)@.pending, ended: true }),
    {
        proof {
            use_type_invariant(&*self);
        }
        self.ended = true;
    }

    /// Takes the next line out of the buffer, if it holds one.
    pub fn next_line(&mut self) -> (line: Option<Vec<u8>>)
        ensures
            match line {
                Some(bytes) => Some(bytes@) == old(self)@.first_line(),
                None => old(self)@.first_line() is None,
            },
            final(self)@ == old(self)@.after_first_line(),
    {
        proof {
            use_type_invariant(&*self);
        }
        let ghost pending = self@.pending;
        let len = self.data.len();
        let mut at = self.start + self.clean;
        while at < len && self.data[at] != LINE_FEED
            invariant
                self.start <= at <= len,
                len == self.data.len(),
                forall|i: int| self.start <= i < at ==> self.data@[i] != LINE_FEED,
            decreases len - at,
        {
            at += 1;
        }
        proof {
            assert forall|i: int| 0 <= i < at - self.start implies pending[i] != LINE_FEED by {
                assert(pending[i] == self.data@[self.start + i]);
            }
            lemma_line_length_from_prefix(pending, at - self.start);
            lemma_line_length(pending);
        }
        if at < len {
            let mut end = at;
            if end > self.start && self.data[end - 1] == CARRIAGE_RETURN {
                end -= 1;
            }
            let bytes = slice_to_vec(slice_subrange(self.data.as_slice(), self.start, end));
            assert(bytes@ =~= without_carriage_return(pending.take(at - self.start)));
            assert(self.data@.skip(at + 1) =~= pending.skip(at - self.start + 1));
            self.clean = 0;
            self.start = at + 1;
            Some(bytes)
        } else if self.ended && self.start < len {
            let mut end = len;
            if self.data[end - 1] == CARRIAGE_RETURN {
                end -= 1;
            }
            let bytes = slice_to_vec(slice_subrange(self.data.as_slice(), self.start, end));
            assert(bytes@ =~= without_carriage_return(pending));
            assert(self.data@.skip(len as int) =~= Seq::<u8>::empty());
            self.clean = 0;
            self.start = len;
            Some(bytes)
        } else {
            if self.ended {
                assert(pending =~= Seq::<u8>::empty());
            }
            self.clean = len - self.start;
            None
        }
    }
}

/// A line as it came off a stream.
#[derive(Debug, PartialEq, Eq)]
pub enum Line {
    /// The line's bytes are UTF-8; this is the text they encode.
    Text(String),
    /// The line's bytes are not UTF-8.
    Malformed,
}

/// The mathematical value of a [`Line`].
pub ghost enum LineView {
    Text(Seq<char>),
    Malformed,
}

impl View for Line {
    type V = LineView;

    open spec fn view(&self) -> LineView {
        match self {
            Line::Text(text) => LineView::Text(text@),
            Line::Malformed => LineView::Malformed,
        }
    }
}

/// The line that `bytes` stand for: their text where they are UTF-8.
pub open spec fn line_of(bytes: Seq<u8>) -> LineView {
    if valid_utf8(bytes) {
        LineView::Text(decode_utf8(bytes))
    } else {
        LineView::Malformed
    }
}

/// The bytes that carry `text` as one line: its UTF-8 encoding and a line feed.
pub open spec fn framed(text: Seq<char>) -> Seq<u8> {
    encode_utf8(text).push(LINE_FEED)
}

/// `String::from_utf8` of std, with the error dropped. It succeeds exactly on
/// bytes that are UTF-8, and the string it gives then holds the characters
/// that the bytes encode.
#[verifier::external_body]
fn string_from_utf8(bytes: Vec<u8>) -> (text: Option<String>)
    ensures
        text is Some <==> valid_utf8(bytes@),
        text matches Some(t) ==> t@ == decode_utf8(bytes@),
{
    String::from_utf8(bytes).ok()
}

/// Reads `bytes` as the text of a line.
pub fn decode_line(bytes: Vec<u8>) -> (line: Line)
    ensures
        line@ == line_of(bytes@),
{
    match string_from_utf8(bytes) {
        Some(text) => Line::Text(text),
        None => Line::Malformed,
    }
}

/// The bytes to put on the wire for `text`: the text, then a line feed, so
/// that two lines never run together.
pub fn frame_line(text: &str) -> (bytes: Vec<u8>)
    ensures
        bytes@ == framed(text@),
{
    let mut bytes = text.as_bytes_vec();
    bytes.push(LINE_FEED);
    bytes
}

impl LineBuffer {
    /// Takes the next line out of the buffer, if it holds one, and reads it
    /// as text.
    pub fn next_text(&mut self) -> (line: Option<Line>)
        ensures
            match line {
                Some(l) => old(self)@.first_line() matches Some(bytes) && l@ == line_of(bytes),
                None => old(self)@.first_line() is None,
            },
            final(self)@ == old(self)@.after_first_line(),
    {
        match self.next_line() {
            Some(bytes) => Some(decode_line(bytes)),
            None => None,
        }
    }
}

/// A character that is no line feed has no line feed among its bytes, and one
/// that is no carriage return does not end in the byte of one.
proof fn lemma_scalar_bytes(c: char)
    ensures
        encode_scalar(c as u32).len() > 0,
        c != '\n' ==> !encode_scalar(c as u32).contains(LINE_FEED),
        c != '\r' ==> encode_scalar(c as u32).last() != CARRIAGE_RETURN,
{
    let v = c as u32;
    let bytes = encode_scalar(v);
    if v <= 0x7F {
        assert(((v & 0x7F) as u8) == v) by (bit_vector)
            requires
                v <= 0x7F,
        ;
    }
    assert((0xC0u8 | ((v >> 6) & 0x1F) as u8) >= 0x80) by (bit_vector);
    assert((0xE0u8 | ((v >> 12) & 0x0F) as u8) >= 0x80) by (bit_vector);
    assert((0xF0u8 | ((v >> 18) & 0x7) as u8) >= 0x80) by (bit_vector);
    assert((0x80u8 | (v & 0x3F) as u8) >= 0x80) by (bit_vector);
    assert((0x80u8 | ((v >> 6) & 0x3F) as u8) >= 0x80) by (bit_vector);
    assert((0x80u8 | ((v >> 12) & 0x3F) as u8) >= 0x80) by (bit_vector);
    assert(forall|i: int| 0 <= i < bytes.len() ==> bytes[i] >= 0x80 || bytes[i] == v);
}

/// Text without a line feed is encoded without the byte of one, and text that
/// does not end in a carriage return is encoded without that byte at its end.
pub proof fn lemma_text_bytes(text: Seq<char>)
    ensures
        !text.contains('\n') ==> !encode_utf8(text).contains(LINE_FEED),
        text.len() > 0 && text.last() != '\r' ==> encode_utf8(text).len() > 0 && encode_utf8(
            text,
        ).last() != CARRIAGE_RETURN,
        text.len() == 0 ==> encode_utf8(text).len() == 0,
    decreases text.len(),
{
    if text.len() > 0 {
        let rest = text.drop_first();
        let head = encode_scalar(text[0] as u32);
        let tail = encode_utf8(rest);
        lemma_scalar_bytes(text[0]);
        lemma_text_bytes(rest);
        if !text.contains('\n') {
            assert(text[0] != '\n');
            assert(!rest.contains('\n')) by {
                if rest.contains('\n') {
                    let i = choose|i: int| 0 <= i < rest.len() && rest[i] == '\n';
                    assert(text[i + 1] == '\n');
                }
            }
            assert(!(head + tail).contains(LINE_FEED)) by {
                if (head + tail).contains(LINE_FEED) {
                    let i = choose|i: int| 0 <= i < (head + tail).len() && (head + tail)[i]
                        == LINE_FEED;
                    if i < head.len() {
                        assert(head[i] == LINE_FEED);
                    } else {
                        assert(tail[i - head.len()] == LINE_FEED);
                    }
                }
            }
        }
        if text.last() != '\r' {
            if rest.len() == 0 {
                assert(head + tail =~= head);
            } else {
                assert(rest.last() == text.last());
                assert((head + tail).last() == tail.last());
            }
        }
    }
}

/// A line that is put on the wire reads back as it was: when the framed bytes
/// of `text` arrive, in a buffer that holds nothing else, the next line is
/// `text` and nothing is left over. This holds of every text that has no line
/// feed in it and no carriage return at its end.
pub proof fn lemma_framed_line_reads_back(text: Seq<char>, ended: bool)
    requires
        !text.contains('\n'),
        text.len() == 0 || text.last() != '\r',
    ensures
        (LineBufferView { pending: framed(text), ended }).first_line() == Some(encode_utf8(text)),
        (LineBufferView { pending: framed(text), ended }).after_first_line() == (LineBufferView {
            pending: Seq::<u8>::empty(),
            ended,
        }),
        line_of(encode_utf8(text)) == LineView::Text(text),
{
    let bytes = encode_utf8(text);
    let wire = framed(text);
    lemma_text_bytes(text);
    assert forall|i: int| 0 <= i < bytes.len() implies wire[i] != LINE_FEED by {
        assert(wire[i] == bytes[i]);
        assert(bytes.contains(bytes[i]));
    }
    lemma_line_length_from_prefix(wire, bytes.len() as int);
    assert(wire.take(bytes.len() as int) =~= bytes);
    assert(wire.skip(bytes.len() as int + 1) =~= Seq::<u8>::empty());
    encode_utf8_valid_utf8(text);
    encode_utf8_decode_utf8(text);
}

/// The value of a buffer that holds `bytes` of a stream that has not ended.
pub open spec fn receiving(bytes: Seq<u8>) -> LineBufferView {
    LineBufferView { pending: bytes, ended: false }
}

/// How a stream is cut into chunks, and when the lines are taken, makes no
/// difference to the lines that come out. Taking every line after `first` has
/// arrived and every line after `second` has arrived gives, together, the
/// lines of the two in one piece, and leaves the same bytes unread.
pub proof fn lemma_lines_do_not_depend_on_chunks(first: Seq<u8>, second: Seq<u8>)
    ensures
        receiving(first + second).lines() == receiving(first).lines() + receiving(
            receiving(first).unread().pending + second,
        ).lines(),
        receiving(first + second).unread() == receiving(
            receiving(first).unread().pending + second,
        ).unread(),
    decreases first.len(),
{
    let whole = first + second;
    lemma_line_length(first);
    if has_line_feed(first) {
        let cut = line_length(first) as int;
        assert forall|i: int| 0 <= i < cut implies whole[i] != LINE_FEED by {
            assert(whole[i] == first[i]);
        }
        assert(whole[cut] == first[cut]);
        lemma_line_length_from_prefix(whole, cut);
        assert(whole.take(cut) =~= first.take(cut));
        assert(whole.skip(cut + 1) =~= first.skip(cut + 1) + second);
        lemma_lines_do_not_depend_on_chunks(first.skip(cut + 1), second);
        let rest = receiving(first.skip(cut + 1));
        assert(receiving(first).after_first_line() == rest);
        assert(receiving(whole).after_first_line() == receiving(first.skip(cut + 1) + second));
        assert(receiving(whole).lines() =~= receiving(first).lines() + receiving(
            receiving(first).unread().pending + second,
        ).lines());
    } else {
        assert(receiving(first).lines() =~= Seq::<LineView>::empty());
        assert(receiving(first).unread() == receiving(first));
        assert(receiving(whole).lines() =~= receiving(first).lines() + receiving(whole).lines());
    }
}

} // verus!
