//! Encoder trait definition.

use vstd::prelude::*;

verus! {

/// An encoder that writes one item's encoded form into the front of a
/// destination buffer and reports how many bytes it wrote.
///
/// `spec_encode` pins the bytes down as a function of the item and of the
/// destination size alone; in particular it decides exactly when encoding
/// fails (most often: the destination is too small).
pub trait Encoder<Item: View>: Sized {
    /// The type of error that this encoder returns.
    type Error;

    /// The bytes that encoding the item writes, or the error returned when
    /// the item cannot be encoded into `dst_len` bytes.
    spec fn spec_encode(&self, item: <Item as View>::V, dst_len: int) -> Result<Seq<u8>, Self::Error>;

    /// Encoded bytes fit in the destination they were computed for.
    proof fn lemma_spec_encode_wf(&self, item: <Item as View>::V, dst_len: int)
        ensures
            self.spec_encode(item, dst_len) matches Ok(bytes) ==> bytes.len() <= dst_len,
    ;

    /// Encodes an item into the front of the provided buffer.
    fn encode(&mut self, item: &Item, dst: &mut Vec<u8>) -> (r: Result<usize, Self::Error>)
        ensures
            *final(self) == *old(self),
            final(dst).len() == old(dst).len(),
            match r {
                Ok(n) => n <= final(dst).len()
                    && old(self).spec_encode(item@, old(dst).len() as int)
                        == Ok::<Seq<u8>, Self::Error>(final(dst)@.subrange(0, n as int))
                    && final(dst)@.subrange(n as int, final(dst).len() as int)
                        == old(dst)@.subrange(n as int, old(dst).len() as int),
                Err(e) => old(self).spec_encode(item@, old(dst).len() as int)
                    == Err::<Seq<u8>, Self::Error>(e)
                    && final(dst)@ == old(dst)@,
            },
    ;
}

} // verus!
