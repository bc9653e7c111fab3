//! Lines codecs for encoding and decoding lines.

use vstd::prelude::*;

use crate::decode::{fresh, fresh_owned, Decoder, FrameSpan, OwnedDecoder};
use crate::encode::Encoder;
use crate::text::bytes_as_str;

verus! {

/// Position of the first line feed in `src` at or after `from`.
pub open spec fn find_newline(src: Seq<u8>, from: int) -> Option<int>
    decreases src.len() - from,
    when 0 <= from <= src.len()
{
    if from >= src.len() {
        None
    } else if src[from] == 10u8 {
        Some(from)
    } else {
        find_newline(src, from + 1)
    }
}

/// What [`find_newline`] finds: the first line feed at or after `from`, or
/// nothing when there is none.
pub proof fn lemma_find_newline(src: Seq<u8>, from: int)
    requires
        0 <= from <= src.len(),
    ensures
        match find_newline(src, from) {
            Some(p) => from <= p < src.len() && src[p] == 10u8
                && (forall|j: int| from <= j < p ==> src[j] != 10u8),
            None => forall|j: int| from <= j < src.len() ==> src[j] != 10u8,
        },
    decreases src.len() - from,
{
    if from < src.len() && src[from] != 10u8 {
        lemma_find_newline(src, from + 1);
    }
}

/// Scanning can skip positions that are known to hold no line feed.
pub proof fn lemma_find_newline_advance(src: Seq<u8>, from: int, to: int)
    requires
        0 <= from <= to <= src.len(),
        forall|j: int| from <= j < to ==> src[j] != 10u8,
    ensures
        find_newline(src, from) == find_newline(src, to),
    decreases to - from,
{
    if from < to {
        lemma_find_newline_advance(src, from + 1, to);
    }
}

/// The first line of `src`, if one is terminated: the frame is `src` up to
/// the first line feed with one trailing carriage return stripped, and the
/// consumed bytes run through the line feed.
pub open spec fn line_frame(src: Seq<u8>) -> Option<(int, int, int)> {
    match find_newline(src, 0) {
        Some(p) => {
            let end = if p > 0 && src[p - 1] == 13u8 {
                p - 1
            } else {
                p
            };
            Some((0, end, p + 1))
        },
        None => None,
    }
}

/// The bytes that encode one line: the item followed by carriage return and
/// line feed.
pub open spec fn line_encoding(item: Seq<u8>) -> Seq<u8> {
    item + seq![13u8, 10u8]
}

/// The frames the line codec cuts from a whole byte stream, in order.
pub open spec fn line_frames(src: Seq<u8>) -> Seq<Seq<u8>>
    decreases src.len(),
{
    match line_frame(src) {
        Some((s, e, n)) => if 1 <= n <= src.len() {
            seq![src.subrange(s, e)] + line_frames(src.skip(n))
        } else {
            seq![]
        },
        None => seq![],
    }
}

/// The byte stream that a sequence of items makes, each encoded as one line.
pub open spec fn lines_wire(items: Seq<Seq<u8>>) -> Seq<u8>
    decreases items.len(),
{
    if items.len() == 0 {
        Seq::empty()
    } else {
        line_encoding(items[0]) + lines_wire(items.drop_first())
    }
}

/// A codec that decodes `bytes` into a `line of bytes` and encodes a `line
/// of bytes` into `bytes`.
///
/// # Note
///
/// This codec tracks progress using an internal state over the underlying
/// buffer, and it must not be used across multiple framing sessions.
#[derive(Debug, Clone)]
pub struct Lines {
    /// The number of bytes of the region that have been seen so far.
    seen: usize,
}

impl Lines {
    /// Creates a new [`Lines`].
    pub fn new() -> (r: Lines)
        ensures
            fresh(&r),
    {
        Lines { seen: 0 }
    }
}

impl Decoder for Lines {
    type Error = core::convert::Infallible;

    open spec fn spec_decode(&self, src: Seq<u8>) -> Result<Option<(int, int, int)>, Self::Error> {
        Ok(line_frame(src))
    }

    open spec fn spec_decode_eof(&self, src: Seq<u8>) -> Result<Option<(int, int, int)>, Self::Error> {
        Ok(line_frame(src))
    }

    closed spec fn valid(&self, src: Seq<u8>) -> bool {
        self.seen <= src.len() && forall|j: int| 0 <= j < self.seen ==> src[j] != 10u8
    }

    proof fn lemma_spec_decode_wf(&self, src: Seq<u8>) {
        lemma_find_newline(src, 0);
    }

    fn decode(&mut self, src: &[u8]) -> (r: Result<Option<FrameSpan>, Self::Error>) {
        loop
            invariant
                self.seen <= src@.len(),
                forall|j: int| 0 <= j < self.seen ==> src@[j] != 10u8,
            decreases src@.len() - self.seen,
        {
            if self.seen >= src.len() {
                proof {
                    lemma_find_newline_advance(src@, 0, self.seen as int);
                }
                return Ok(None);
            }
            if src[self.seen] == 10 {
                let p = self.seen;
                let end = if p > 0 && src[p - 1] == 13 {
                    p - 1
                } else {
                    p
                };
                self.seen = 0;
                proof {
                    lemma_find_newline_advance(src@, 0, p as int);
                    assert(find_newline(src@, 0) == Some(p as int));
                    assert(forall|s: Seq<u8>| #[trigger] self.valid(s));
                }
                return Ok(Some(FrameSpan { start: 0, end, consumed: p + 1 }));
            }
            self.seen = self.seen + 1;
        }
    }

    fn decode_eof(&mut self, src: &[u8]) -> (r: Result<Option<FrameSpan>, Self::Error>) {
        self.decode(src)
    }
}

/// Error returned by [`Lines::encode`].
#[derive(Debug, Clone, Copy, PartialEq, Eq, Structural)]
pub enum LinesEncodeError {
    /// The destination buffer is too small to fit the encoded line.
    BufferTooSmall,
}

impl Encoder<Vec<u8>> for Lines {
    type Error = LinesEncodeError;

    open spec fn spec_encode(&self, item: Seq<u8>, dst_len: int) -> Result<Seq<u8>, Self::Error> {
        if item.len() + 2 <= dst_len {
            Ok(line_encoding(item))
        } else {
            Err(LinesEncodeError::BufferTooSmall)
        }
    }

    proof fn lemma_spec_encode_wf(&self, item: Seq<u8>, dst_len: int) {
    }

    fn encode(&mut self, item: &Vec<u8>, dst: &mut Vec<u8>) -> (r: Result<usize, Self::Error>) {
        if dst.len() < 2 || item.len() > dst.len() - 2 {
            return Err(LinesEncodeError::BufferTooSmall);
        }
        let mut i: usize = 0;
        while i < item.len()
            invariant
                i <= item@.len(),
                item@.len() + 2 <= dst@.len(),
                dst@.len() == old(dst)@.len(),
                forall|j: int| 0 <= j < i ==> dst@[j] == item@[j],
                forall|j: int| i <= j < dst@.len() ==> dst@[j] == old(dst)@[j],
            decreases item@.len() - i,
        {
            let b = item[i];
            dst.set(i, b);
            i += 1;
        }
        dst.set(i, 13);
        dst.set(i + 1, 10);
        proof {
            assert(dst@.subrange(0, item@.len() + 2int) =~= line_encoding(item@));
            assert(dst@.subrange(item@.len() + 2int, dst@.len() as int)
                =~= old(dst)@.subrange(item@.len() + 2int, old(dst)@.len() as int));
        }
        Ok(item.len() + 2)
    }
}

/// A codec that decodes `bytes` into a text line and encodes a text line
/// into `bytes`: the framing of [`Lines`] plus a UTF-8 check on every frame.
///
/// # Note
///
/// This codec tracks progress using an internal state over the underlying
/// buffer, and it must not be used across multiple framing sessions.
#[derive(Debug, Clone)]
pub struct StrLines {
    inner: Lines,
}

impl StrLines {
    /// Creates a new [`StrLines`].
    pub fn new() -> (r: StrLines)
        ensures
            fresh(&r),
    {
        StrLines { inner: Lines::new() }
    }
}

/// Error returned by [`StrLines::decode`].
#[derive(Debug, Clone, Copy, PartialEq, Eq, Structural)]
pub enum StrLinesDecodeError {
    /// The framed line is not valid UTF-8.
    Utf8,
}

impl Decoder for StrLines {
    type Error = StrLinesDecodeError;

    open spec fn spec_decode(&self, src: Seq<u8>) -> Result<Option<(int, int, int)>, Self::Error> {
        match line_frame(src) {
            Some((s, e, n)) => if vstd::utf8::valid_utf8(src.subrange(s, e)) {
                Ok(Some((s, e, n)))
            } else {
                Err(StrLinesDecodeError::Utf8)
            },
            None => Ok(None),
        }
    }

    open spec fn spec_decode_eof(&self, src: Seq<u8>) -> Result<Option<(int, int, int)>, Self::Error> {
        self.spec_decode(src)
    }

    closed spec fn valid(&self, src: Seq<u8>) -> bool {
        self.inner.valid(src)
    }

    proof fn lemma_spec_decode_wf(&self, src: Seq<u8>) {
        lemma_find_newline(src, 0);
    }

    fn decode(&mut self, src: &[u8]) -> (r: Result<Option<FrameSpan>, Self::Error>) {
        match self.inner.decode(src) {
            Ok(Some(f)) => {
                proof {
                    self.inner.lemma_spec_decode_wf(src@);
                }
                match bytes_as_str(vstd::slice::slice_subrange(src, f.start, f.end)) {
                    Some(_) => Ok(Some(f)),
                    None => Err(StrLinesDecodeError::Utf8),
                }
            },
            Ok(None) => Ok(None),
            // the line scan itself cannot fail
            Err(_) => Ok(None),
        }
    }

    fn decode_eof(&mut self, src: &[u8]) -> (r: Result<Option<FrameSpan>, Self::Error>) {
        self.decode(src)
    }
}

impl Encoder<String> for StrLines {
    type Error = LinesEncodeError;

    open spec fn spec_encode(&self, item: Seq<char>, dst_len: int) -> Result<Seq<u8>, Self::Error> {
        if vstd::utf8::encode_utf8(item).len() + 2 <= dst_len {
            Ok(line_encoding(vstd::utf8::encode_utf8(item)))
        } else {
            Err(LinesEncodeError::BufferTooSmall)
        }
    }

    proof fn lemma_spec_encode_wf(&self, item: Seq<char>, dst_len: int) {
    }

    fn encode(&mut self, item: &String, dst: &mut Vec<u8>) -> (r: Result<usize, Self::Error>) {
        let bytes = vstd::string::StrSliceExecFns::as_bytes_vec(item.as_str());
        self.inner.encode(&bytes, dst)
    }
}

/// An owned [`Lines`]: the framed line is copied out of the region into a
/// vector of at most `N` bytes.
///
/// # Note
///
/// This codec tracks progress using an internal state over the underlying
/// buffer, and it must not be used across multiple framing sessions.
#[derive(Debug, Clone)]
pub struct OwnedLines<const N: usize> {
    inner: Lines,
}

impl<const N: usize> OwnedLines<N> {
    /// Creates a new [`OwnedLines`].
    pub fn new() -> (r: OwnedLines<N>)
        ensures
            fresh_owned(&r),
    {
        OwnedLines { inner: Lines::new() }
    }
}

/// Error returned by [`OwnedLines::decode_owned`].
#[derive(Debug, Clone, Copy, PartialEq, Eq, Structural)]
pub enum OwnedLinesDecodeError {
    /// The framed line does not fit in the owned container.
    BufferTooSmall,
}

impl<const N: usize> OwnedDecoder for OwnedLines<N> {
    type Item = Vec<u8>;

    type Error = OwnedLinesDecodeError;

    open spec fn spec_decode_owned(&self, src: Seq<u8>) -> Result<Option<(Seq<u8>, int)>, Self::Error> {
        match line_frame(src) {
            Some((s, e, n)) => if e - s <= N {
                Ok(Some((src.subrange(s, e), n)))
            } else {
                Err(OwnedLinesDecodeError::BufferTooSmall)
            },
            None => Ok(None),
        }
    }

    open spec fn spec_decode_owned_eof(&self, src: Seq<u8>) -> Result<Option<(Seq<u8>, int)>, Self::Error> {
        self.spec_decode_owned(src)
    }

    closed spec fn valid(&self, src: Seq<u8>) -> bool {
        self.inner.valid(src)
    }

    proof fn lemma_spec_decode_owned_wf(&self, src: Seq<u8>) {
        lemma_find_newline(src, 0);
    }

    fn decode_owned(&mut self, src: &[u8]) -> (r: Result<Option<(Vec<u8>, usize)>, Self::Error>) {
        match self.inner.decode(src) {
            Ok(Some(f)) => {
                proof {
                    self.inner.lemma_spec_decode_wf(src@);
                }
                if f.end - f.start > N {
                    return Err(OwnedLinesDecodeError::BufferTooSmall);
                }
                let item = vstd::slice::slice_to_vec(
                    vstd::slice::slice_subrange(src, f.start, f.end),
                );
                Ok(Some((item, f.consumed)))
            },
            Ok(None) => Ok(None),
            // the line scan itself cannot fail
            Err(_) => Ok(None),
        }
    }

    fn decode_owned_eof(&mut self, src: &[u8]) -> (r: Result<Option<(Vec<u8>, usize)>, Self::Error>) {
        self.decode_owned(src)
    }
}

impl<const N: usize> Encoder<Vec<u8>> for OwnedLines<N> {
    type Error = LinesEncodeError;

    open spec fn spec_encode(&self, item: Seq<u8>, dst_len: int) -> Result<Seq<u8>, Self::Error> {
        if item.len() + 2 <= dst_len {
            Ok(line_encoding(item))
        } else {
            Err(LinesEncodeError::BufferTooSmall)
        }
    }

    proof fn lemma_spec_encode_wf(&self, item: Seq<u8>, dst_len: int) {
    }

    fn encode(&mut self, item: &Vec<u8>, dst: &mut Vec<u8>) -> (r: Result<usize, Self::Error>) {
        self.inner.encode(item, dst)
    }
}

/// An owned [`StrLines`]: the framed line is checked for UTF-8 and copied
/// out of the region into a string of at most `N` bytes.
///
/// # Note
///
/// This codec tracks progress using an internal state over the underlying
/// buffer, and it must not be used across multiple framing sessions.
#[derive(Debug, Clone)]
pub struct StringLines<const N: usize> {
    inner: StrLines,
}

impl<const N: usize> StringLines<N> {
    /// Creates a new [`StringLines`].
    pub fn new() -> (r: StringLines<N>)
        ensures
            fresh_owned(&r),
    {
        StringLines { inner: StrLines::new() }
    }
}

/// Error returned by [`StringLines::decode_owned`].
#[derive(Debug, Clone, Copy, PartialEq, Eq, Structural)]
pub enum StringLinesDecodeError {
    /// Text decoding error.
    Str(StrLinesDecodeError),
    /// The framed line does not fit in the owned container.
    BufferTooSmall,
}

impl<const N: usize> OwnedDecoder for StringLines<N> {
    type Item = String;

    type Error = StringLinesDecodeError;

    open spec fn spec_decode_owned(&self, src: Seq<u8>) -> Result<Option<(Seq<char>, int)>, Self::Error> {
        match line_frame(src) {
            Some((s, e, n)) => {
                let bytes = src.subrange(s, e);
                if !vstd::utf8::valid_utf8(bytes) {
                    Err(StringLinesDecodeError::Str(StrLinesDecodeError::Utf8))
                } else if e - s > N {
                    Err(StringLinesDecodeError::BufferTooSmall)
                } else {
                    Ok(Some((vstd::utf8::decode_utf8(bytes), n)))
                }
            },
            None => Ok(None),
        }
    }

    open spec fn spec_decode_owned_eof(&self, src: Seq<u8>) -> Result<Option<(Seq<char>, int)>, Self::Error> {
        self.spec_decode_owned(src)
    }

    closed spec fn valid(&self, src: Seq<u8>) -> bool {
        self.inner.valid(src)
    }

    proof fn lemma_spec_decode_owned_wf(&self, src: Seq<u8>) {
        lemma_find_newline(src, 0);
    }

    fn decode_owned(&mut self, src: &[u8]) -> (r: Result<Option<(String, usize)>, Self::Error>) {
        match self.inner.decode(src) {
            Ok(Some(f)) => {
                proof {
                    self.inner.lemma_spec_decode_wf(src@);
                }
                if f.end - f.start > N {
                    return Err(StringLinesDecodeError::BufferTooSmall);
                }
                match bytes_as_str(vstd::slice::slice_subrange(src, f.start, f.end)) {
                    Some(s) => {
                        proof {
                            vstd::utf8::encode_utf8_decode_utf8(s@);
                        }
                        Ok(Some((s.to_owned(), f.consumed)))
                    },
                    None => Err(StringLinesDecodeError::Str(StrLinesDecodeError::Utf8)),
                }
            },
            Ok(None) => Ok(None),
            Err(e) => Err(StringLinesDecodeError::Str(e)),
        }
    }

    fn decode_owned_eof(&mut self, src: &[u8]) -> (r: Result<Option<(String, usize)>, Self::Error>) {
        self.decode_owned(src)
    }
}

impl<const N: usize> Encoder<String> for StringLines<N> {
    type Error = LinesEncodeError;

    open spec fn spec_encode(&self, item: Seq<char>, dst_len: int) -> Result<Seq<u8>, Self::Error> {
        if vstd::utf8::encode_utf8(item).len() + 2 <= dst_len {
            Ok(line_encoding(vstd::utf8::encode_utf8(item)))
        } else {
            Err(LinesEncodeError::BufferTooSmall)
        }
    }

    proof fn lemma_spec_encode_wf(&self, item: Seq<char>, dst_len: int) {
    }

    fn encode(&mut self, item: &String, dst: &mut Vec<u8>) -> (r: Result<usize, Self::Error>) {
        self.inner.encode(item, dst)
    }
}

} // verus!
