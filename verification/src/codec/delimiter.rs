//! Any-delimiter codecs for encoding and decoding bytes.

use vstd::prelude::*;

use crate::decode::{fresh, Decoder, FrameSpan};
use crate::encode::Encoder;

verus! {

/// An occurrence of `delim` ends at position `p` of `src` (inclusive).
pub open spec fn delim_ends_at(src: Seq<u8>, delim: Seq<u8>, p: int) -> bool {
    &&& 0 <= p < src.len()
    &&& p + 1 >= delim.len()
    &&& forall|j: int| 0 <= j < delim.len() ==> src[p + 1 - delim.len() + j] == delim[j]
}

/// Position of the first delimiter occurrence ending at or after `from`.
pub open spec fn find_delim_end(src: Seq<u8>, delim: Seq<u8>, from: int) -> Option<int>
    decreases src.len() - from,
    when 0 <= from <= src.len()
{
    if from >= src.len() {
        None
    } else if delim_ends_at(src, delim, from) {
        Some(from)
    } else {
        find_delim_end(src, delim, from + 1)
    }
}

/// What [`find_delim_end`] finds: the first occurrence end at or after
/// `from`, or nothing when there is none.
pub proof fn lemma_find_delim_end(src: Seq<u8>, delim: Seq<u8>, from: int)
    requires
        0 <= from <= src.len(),
    ensures
        match find_delim_end(src, delim, from) {
            Some(p) => from <= p < src.len() && delim_ends_at(src, delim, p)
                && (forall|j: int| from <= j < p ==> !delim_ends_at(src, delim, j)),
            None => forall|j: int| from <= j < src.len() ==> !delim_ends_at(src, delim, j),
        },
    decreases src.len() - from,
{
    if from < src.len() && !delim_ends_at(src, delim, from) {
        lemma_find_delim_end(src, delim, from + 1);
    }
}

/// Scanning can skip positions where no occurrence is known to end.
pub proof fn lemma_find_delim_end_advance(src: Seq<u8>, delim: Seq<u8>, from: int, to: int)
    requires
        0 <= from <= to <= src.len(),
        forall|j: int| from <= j < to ==> !delim_ends_at(src, delim, j),
    ensures
        find_delim_end(src, delim, from) == find_delim_end(src, delim, to),
    decreases to - from,
{
    if from < to {
        lemma_find_delim_end_advance(src, delim, from + 1, to);
    }
}

/// The first delimited frame of `src`: the bytes before the first delimiter
/// occurrence; the frame and the delimiter are consumed.  An empty delimiter
/// cuts one-byte frames.
pub open spec fn delim_frame(src: Seq<u8>, delim: Seq<u8>) -> Option<(int, int, int)> {
    if delim.len() == 0 {
        if src.len() == 0 {
            None
        } else {
            Some((0, 1, 1))
        }
    } else {
        match find_delim_end(src, delim, 0) {
            Some(p) => Some((0, p + 1 - delim.len(), p + 1)),
            None => None,
        }
    }
}

/// The bytes that encode one delimited frame: the item followed by the
/// delimiter.
pub open spec fn delim_encoding(item: Seq<u8>, delim: Seq<u8>) -> Seq<u8> {
    item + delim
}

/// The frames the delimiter codec cuts from a whole byte stream, in order.
pub open spec fn delim_frames(src: Seq<u8>, delim: Seq<u8>) -> Seq<Seq<u8>>
    decreases src.len(),
{
    match delim_frame(src, delim) {
        Some((s, e, n)) => if 1 <= n <= src.len() {
            seq![src.subrange(s, e)] + delim_frames(src.skip(n), delim)
        } else {
            seq![]
        },
        None => seq![],
    }
}

/// The byte stream that a sequence of items makes, each followed by the
/// delimiter.
pub open spec fn delim_wire(items: Seq<Seq<u8>>, delim: Seq<u8>) -> Seq<u8>
    decreases items.len(),
{
    if items.len() == 0 {
        Seq::empty()
    } else {
        delim_encoding(items[0], delim) + delim_wire(items.drop_first(), delim)
    }
}

/// A codec that decodes bytes ending with a `delimiter` into bytes and
/// encodes bytes into bytes ending with a `delimiter`.
///
/// # Note
///
/// This codec tracks progress using an internal state over the underlying
/// buffer, and it must not be used across multiple framing sessions.
#[derive(Debug, Clone)]
pub struct Delimiter {
    /// The delimiter to search for.
    delimiter: Vec<u8>,
    /// The number of bytes of the region that have been seen so far.
    seen: usize,
}

impl Delimiter {
    /// Creates a new [`Delimiter`] with the given `delimiter`.
    pub fn new(delimiter: Vec<u8>) -> (r: Delimiter)
        ensures
            fresh(&r),
            r.spec_delimiter() == delimiter@,
    {
        Delimiter { delimiter, seen: 0 }
    }

    /// The delimiter searched for.
    pub closed spec fn spec_delimiter(&self) -> Seq<u8> {
        self.delimiter@
    }

    /// Returns the delimiter to search for.
    pub fn delimiter(&self) -> (r: &Vec<u8>)
        ensures
            r@ == self.spec_delimiter(),
    {
        &self.delimiter
    }

    /// Does an occurrence of the delimiter end at position `p`?
    fn ends_at(&self, src: &[u8], p: usize) -> (b: bool)
        requires
            p < src@.len(),
            self.spec_delimiter().len() >= 1,
        ensures
            b == delim_ends_at(src@, self.spec_delimiter(), p as int),
    {
        if p < self.delimiter.len() - 1 {
            return false;
        }
        let base = p - (self.delimiter.len() - 1);
        let mut j: usize = 0;
        while j < self.delimiter.len()
            invariant
                j <= self.delimiter@.len(),
                p < src@.len(),
                p + 1 >= self.delimiter@.len(),
                base == p + 1 - self.delimiter@.len(),
                forall|k: int| 0 <= k < j ==> src@[base + k] == self.delimiter@[k],
            decreases self.delimiter@.len() - j,
        {
            if src[base + j] != self.delimiter[j] {
                return false;
            }
            j += 1;
        }
        true
    }
}

impl Decoder for Delimiter {
    type Error = core::convert::Infallible;

    open spec fn spec_decode(&self, src: Seq<u8>) -> Result<Option<(int, int, int)>, Self::Error> {
        Ok(delim_frame(src, self.spec_delimiter()))
    }

    open spec fn spec_decode_eof(&self, src: Seq<u8>) -> Result<Option<(int, int, int)>, Self::Error> {
        self.spec_decode(src)
    }

    closed spec fn valid(&self, src: Seq<u8>) -> bool {
        self.seen <= src.len()
            && forall|j: int| 0 <= j < self.seen ==> !delim_ends_at(src, self.delimiter@, j)
    }

    proof fn lemma_spec_decode_wf(&self, src: Seq<u8>) {
        if self.spec_delimiter().len() > 0 {
            lemma_find_delim_end(src, self.spec_delimiter(), 0);
        }
    }

    fn decode(&mut self, src: &[u8]) -> (r: Result<Option<FrameSpan>, Self::Error>) {
        if self.delimiter.len() == 0 {
            if src.len() == 0 {
                return Ok(None);
            }
            return Ok(Some(FrameSpan { start: 0, end: 1, consumed: 1 }));
        }
        if src.len() < self.delimiter.len() {
            proof {
                assert forall|j: int| 0 <= j < src@.len() implies !delim_ends_at(
                    src@,
                    self.delimiter@,
                    j,
                ) by {
                    assert(j + 1 < self.delimiter@.len());
                }
                lemma_find_delim_end_advance(src@, self.delimiter@, 0, src@.len() as int);
                assert forall|ext: Seq<u8>| #[trigger] self.valid(src@ + ext) by {
                    assert forall|j: int| 0 <= j < self.seen implies !delim_ends_at(
                        src@ + ext,
                        self.delimiter@,
                        j,
                    ) by {
                        if delim_ends_at(src@ + ext, self.delimiter@, j) {
                            assert forall|k: int| 0 <= k < self.delimiter@.len() implies src@[j + 1
                                - self.delimiter@.len() + k] == self.delimiter@[k] by {
                                assert((src@ + ext)[j + 1 - self.delimiter@.len() + k]
                                    == self.delimiter@[k]);
                            }
                            assert(delim_ends_at(src@, self.delimiter@, j));
                        }
                    }
                }
            }
            return Ok(None);
        }
        loop
            invariant
                self.delimiter@.len() >= 1,
                self.seen <= src@.len(),
                self.delimiter@ == old(self).delimiter@,
                forall|j: int| 0 <= j < self.seen ==> !delim_ends_at(src@, self.delimiter@, j),
            decreases src@.len() - self.seen,
        {
            if self.seen >= src.len() {
                proof {
                    lemma_find_delim_end_advance(src@, self.delimiter@, 0, self.seen as int);
                    assert forall|ext: Seq<u8>| #[trigger] self.valid(src@ + ext) by {
                        assert forall|j: int| 0 <= j < self.seen implies !delim_ends_at(
                            src@ + ext,
                            self.delimiter@,
                            j,
                        ) by {
                            if delim_ends_at(src@ + ext, self.delimiter@, j) {
                                assert forall|k: int| 0 <= k < self.delimiter@.len() implies src@[j
                                    + 1 - self.delimiter@.len() + k] == self.delimiter@[k] by {
                                    assert((src@ + ext)[j + 1 - self.delimiter@.len() + k]
                                        == self.delimiter@[k]);
                                }
                                assert(delim_ends_at(src@, self.delimiter@, j));
                            }
                        }
                    }
                }
                return Ok(None);
            }
            if self.ends_at(src, self.seen) {
                let p = self.seen;
                let end = p + 1 - self.delimiter.len();
                self.seen = 0;
                proof {
                    lemma_find_delim_end_advance(src@, self.delimiter@, 0, p as int);
                    assert(find_delim_end(src@, self.delimiter@, 0) == Some(p as int));
                    assert(forall|s: Seq<u8>| #[trigger] self.valid(s));
                }
                return Ok(Some(FrameSpan { start: 0, end, consumed: p + 1 }));
            }
            self.seen = self.seen + 1;
        }
    }

    fn decode_eof(&mut self, src: &[u8]) -> (r: Result<Option<FrameSpan>, Self::Error>) {
        self.decode(src)
    }
}

/// Error returned by [`Delimiter::encode`].
#[derive(Debug, Clone, Copy, PartialEq, Eq, Structural)]
pub enum DelimiterEncodeError {
    /// The destination buffer is too small to fit the encoded bytes.
    BufferTooSmall,
}

impl Encoder<Vec<u8>> for Delimiter {
    type Error = DelimiterEncodeError;

    open spec fn spec_encode(&self, item: Seq<u8>, dst_len: int) -> Result<Seq<u8>, Self::Error> {
        if item.len() + self.spec_delimiter().len() <= dst_len {
            Ok(delim_encoding(item, self.spec_delimiter()))
        } else {
            Err(DelimiterEncodeError::BufferTooSmall)
        }
    }

    proof fn lemma_spec_encode_wf(&self, item: Seq<u8>, dst_len: int) {
    }

    fn encode(&mut self, item: &Vec<u8>, dst: &mut Vec<u8>) -> (r: Result<usize, Self::Error>) {
        if item.len() > dst.len() || self.delimiter.len() > dst.len() - item.len() {
            return Err(DelimiterEncodeError::BufferTooSmall);
        }
        let mut i: usize = 0;
        while i < item.len()
            invariant
                i <= item@.len(),
                item@.len() + self.delimiter@.len() <= dst@.len(),
                dst@.len() == old(dst)@.len(),
                self.delimiter@ == old(self).delimiter@,
                forall|j: int| 0 <= j < i ==> dst@[j] == item@[j],
                forall|j: int| i <= j < dst@.len() ==> dst@[j] == old(dst)@[j],
            decreases item@.len() - i,
        {
            let b = item[i];
            dst.set(i, b);
            i += 1;
        }
        let mut j: usize = 0;
        while j < self.delimiter.len()
            invariant
                j <= self.delimiter@.len(),
                i == item@.len(),
                item@.len() + self.delimiter@.len() <= usize::MAX,
                item@.len() + self.delimiter@.len() <= dst@.len(),
                dst@.len() == old(dst)@.len(),
                self.delimiter@ == old(self).delimiter@,
                forall|k: int| 0 <= k < i ==> dst@[k] == item@[k],
                forall|k: int| 0 <= k < j ==> dst@[i + k] == self.delimiter@[k],
                forall|k: int| i + j <= k < dst@.len() ==> dst@[k] == old(dst)@[k],
            decreases self.delimiter@.len() - j,
        {
            let b = self.delimiter[j];
            dst.set(i + j, b);
            j += 1;
        }
        let size = i + j;
        proof {
            assert(dst@.subrange(0, size as int) =~= delim_encoding(item@, self.delimiter@));
            assert(dst@.subrange(size as int, dst@.len() as int)
                =~= old(dst)@.subrange(size as int, old(dst)@.len() as int));
        }
        Ok(size)
    }
}

} // verus!
