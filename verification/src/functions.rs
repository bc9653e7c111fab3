//! The framing drivers, as free functions over decoupled states.
//!
//! `maybe_next` is one step of the read state machine, `next` loops it until
//! a frame or a terminal outcome, and `send` is the whole write path.  The
//! `Framed` wrappers delegate here; the functions are also usable on their
//! own when one transport serves both directions.

use vstd::prelude::*;

use crate::decode::{Decoder, OwnedDecoder};
use crate::encode::Encoder;
use crate::error::{ReadError, WriteError};
use crate::state::{ReadState, WriteState};
use crate::transport::{TransportRead, TransportWrite};

verus! {

/// The read state and the decoder agree: the bookkeeping indices are in
/// range, and the decoder's progress fits the available bytes however they
/// are later extended by reads.
pub open spec fn read_wf<C: Decoder>(state: &ReadState, codec: &C) -> bool {
    &&& state.wf()
    &&& forall|ext: Seq<u8>| #[trigger] codec.valid(state.region() + ext)
}

/// [`read_wf`] for an owned decoder.
pub open spec fn read_wf_owned<C: OwnedDecoder>(state: &ReadState, codec: &C) -> bool {
    &&& state.wf()
    &&& forall|ext: Seq<u8>| #[trigger] codec.valid(state.region() + ext)
}

/// Only `total_consumed` may differ between the two states.
pub open spec fn consumed_only(pre: &ReadState, post: &ReadState) -> bool {
    &&& post.index == pre.index
    &&& post.buffer@ == pre.buffer@
    &&& post.eof == pre.eof
    &&& post.is_framable == pre.is_framable
    &&& post.shift == pre.shift
}

/// The two states are equal.
pub open spec fn state_unchanged(pre: &ReadState, post: &ReadState) -> bool {
    consumed_only(pre, post) && post.total_consumed == pre.total_consumed
}

/// The step left everything alone but cleared `is_framable`.
pub open spec fn unframed_only(pre: &ReadState, post: &ReadState) -> bool {
    &&& post.index == pre.index
    &&& post.total_consumed == pre.total_consumed
    &&& post.buffer@ == pre.buffer@
    &&& post.eof == pre.eof
    &&& post.is_framable == false
}

/// The decoder's configuration is unchanged: it frames every region as
/// before.
pub open spec fn same_framing<C: Decoder>(pre: &C, post: &C) -> bool {
    forall|s: Seq<u8>| #![auto] post.spec_decode(s) == pre.spec_decode(s)
        && post.spec_decode_eof(s) == pre.spec_decode_eof(s)
}

/// [`same_framing`] for an owned decoder.
pub open spec fn same_framing_owned<C: OwnedDecoder>(pre: &C, post: &C) -> bool {
    forall|s: Seq<u8>| #![auto] post.spec_decode_owned(s) == pre.spec_decode_owned(s)
        && post.spec_decode_owned_eof(s) == pre.spec_decode_owned_eof(s)
}


/// The whole relation of one read step: what [`maybe_next`] does to the
/// state, the decoder and the transport, and what it returns, branch by
/// branch of the step algorithm.
pub open spec fn step_ok<C: Decoder, R: TransportRead>(
    pre_state: ReadState,
    pre_codec: C,
    pre_read: R,
    post_state: ReadState,
    post_codec: C,
    post_read: R,
    r: Option<Result<Option<(usize, usize)>, ReadError<R::Error, C::Error>>>,
) -> bool {
    &&& (same_framing(&pre_codec, &post_codec))
    &&& (post_state.buffer.len() == pre_state.buffer.len())
    &&& (pre_state.eof ==> post_state.eof)
    &&& (
        // a pending shift is performed: the unconsumed bytes move to the
        // front and nothing else changes; with nothing consumed the buffer
        // contents are left untouched
        pre_state.shift ==> {
            &&& r == Some(Ok::<Option<(usize, usize)>, ReadError<R::Error, C::Error>>(None))
            &&& post_state.index == pre_state.index - pre_state.total_consumed
            &&& post_state.total_consumed == 0
            &&& post_state.shift == false
            &&& post_state.eof == pre_state.eof
            &&& post_state.is_framable == pre_state.is_framable
            &&& post_state.region() == pre_state.region()
            &&& (pre_state.total_consumed == 0 ==> post_state.buffer@ == pre_state.buffer@
                && post_state.index == pre_state.index)
            &&& post_codec == pre_codec
            &&& post_read == pre_read
            &&& read_wf(&post_state, &post_codec)
        }
    )
    &&& (
        // a framable region at end of stream goes to the decoder's
        // end-of-stream flavor
        (!pre_state.shift && pre_state.is_framable && pre_state.eof) ==> match pre_codec.spec_decode_eof(pre_state.region()) {
            Ok(Some((fs, fe, fc))) => {
                &&& r == Some(Ok::<Option<(usize, usize)>, ReadError<R::Error, C::Error>>(Some((
                    (pre_state.total_consumed + fs) as usize,
                    (pre_state.total_consumed + fe) as usize,
                ))))
                &&& post_state.total_consumed == pre_state.total_consumed + fc
                &&& consumed_only(&pre_state, &post_state)
                &&& post_read == pre_read
                &&& read_wf(&post_state, &post_codec)
            },
            Ok(None) => {
                &&& unframed_only(&pre_state, &post_state)
                &&& post_state.shift == pre_state.shift
                &&& post_read == pre_read
                &&& (if pre_state.index != pre_state.total_consumed {
                    r == Some(Err::<Option<(usize, usize)>, ReadError<R::Error, C::Error>>(
                        ReadError::BytesRemainingOnStream,
                    ))
                } else {
                    r is None
                })
                &&& read_wf(&post_state, &post_codec)
            },
            Err(e) => {
                &&& r == Some(Err::<Option<(usize, usize)>, ReadError<R::Error, C::Error>>(
                    ReadError::Decode(e),
                ))
                &&& state_unchanged(&pre_state, &post_state)
                &&& post_read == pre_read
            },
        }
    )
    &&& (
        // a framable region before end of stream goes to the decoder; when
        // it has no complete frame, compaction is scheduled for a full buffer
        (!pre_state.shift && pre_state.is_framable && !pre_state.eof) ==> match pre_codec.spec_decode(pre_state.region()) {
            Ok(Some((fs, fe, fc))) => {
                &&& r == Some(Ok::<Option<(usize, usize)>, ReadError<R::Error, C::Error>>(Some((
                    (pre_state.total_consumed + fs) as usize,
                    (pre_state.total_consumed + fe) as usize,
                ))))
                &&& post_state.total_consumed == pre_state.total_consumed + fc
                &&& consumed_only(&pre_state, &post_state)
                &&& post_read == pre_read
                &&& read_wf(&post_state, &post_codec)
            },
            Ok(None) => {
                &&& r == Some(Ok::<Option<(usize, usize)>, ReadError<R::Error, C::Error>>(None))
                &&& unframed_only(&pre_state, &post_state)
                &&& post_state.shift == (pre_state.index >= pre_state.buffer.len())
                &&& post_read == pre_read
                &&& read_wf(&post_state, &post_codec)
            },
            Err(e) => {
                &&& r == Some(Err::<Option<(usize, usize)>, ReadError<R::Error, C::Error>>(
                    ReadError::Decode(e),
                ))
                &&& state_unchanged(&pre_state, &post_state)
                &&& post_read == pre_read
            },
        }
    )
    &&& (
        // a full buffer with nothing framable cannot make progress
        (!pre_state.shift && !pre_state.is_framable && pre_state.index >= pre_state.buffer.len()) ==> {
            &&& r == Some(Err::<Option<(usize, usize)>, ReadError<R::Error, C::Error>>(
                ReadError::BufferTooSmall,
            ))
            &&& state_unchanged(&pre_state, &post_state)
            &&& post_codec == pre_codec
            &&& post_read == pre_read
            &&& read_wf(&post_state, &post_codec)
        }
    )
    &&& (
        // otherwise bytes are pulled from the transport into the tail of the
        // buffer; zero bytes mean end of stream
        (!pre_state.shift && !pre_state.is_framable && pre_state.index < pre_state.buffer.len()) ==> {
            &&& post_codec == pre_codec
            &&& post_state.total_consumed == pre_state.total_consumed
            &&& post_state.shift == pre_state.shift
            &&& post_state.buffer@.subrange(0, pre_state.index as int) == pre_state.buffer@.subrange(0, pre_state.index as int)
            &&& match r {
                Some(Err(e)) => {
                    &&& e is IO
                    &&& post_state.index == pre_state.index
                    &&& post_state.eof == pre_state.eof
                    &&& post_state.is_framable == pre_state.is_framable
                    &&& post_state.buffer@ == pre_state.buffer@
                    &&& read_wf(&post_state, &post_codec)
                },
                Some(Ok(None)) => {
                    &&& post_state.is_framable == true
                    &&& pre_state.index <= post_state.index <= post_state.buffer.len()
                    &&& post_state.eof == (pre_state.eof || post_state.index == pre_state.index)
                    &&& read_wf(&post_state, &post_codec)
                },
                _ => false,
            }
        }
    )
}

/// Tries to read a frame: one step of the read state machine.
///
/// The step order is part of the contract: a pending shift is performed
/// first; else a framable region is handed to the decoder (at end of stream,
/// to its end-of-stream flavor); else a full buffer fails with
/// [`ReadError::BufferTooSmall`]; else bytes are pulled from the transport.
///
/// # Return value
///
/// - `Some(Ok(None))`: progress was made but no frame is ready; call again.
/// - `Some(Ok(Some((start, end))))`: a frame was decoded; its bytes sit at
///   `state.buffer[start..end]` until the next step mutates the buffer.
/// - `Some(Err(error))`: the caller should stop reading.
/// - `None`: end of stream; the caller should stop reading.
pub fn maybe_next<C: Decoder, R: TransportRead>(
    state: &mut ReadState,
    codec: &mut C,
    read: &mut R,
) -> (r: Option<Result<Option<(usize, usize)>, ReadError<R::Error, C::Error>>>)
    requires
        read_wf(old(state), old(codec)),
    ensures
        step_ok(*old(state), *old(codec), *old(read), *final(state), *final(codec), *final(read), r),
{
    if state.shift {
        state.compact();
        proof {
            assert forall|ext: Seq<u8>| #[trigger] codec.valid(state.region() + ext) by {
                assert(codec.valid(old(state).region() + ext));
            }
        }
        return Some(Ok(None));
    }

    if state.is_framable {
        proof {
            assert(old(state).region() + Seq::<u8>::empty() =~= old(state).region());
            assert(codec.valid(old(state).region()));
        }
        if state.eof {
            let src = vstd::slice::slice_subrange(
                state.buffer.as_slice(),
                state.total_consumed,
                state.index,
            );
            match codec.decode_eof(src) {
                Ok(Some(f)) => {
                    proof {
                        codec.lemma_spec_decode_wf(src@);
                    }
                    let base = state.total_consumed;
                    state.total_consumed = base + f.consumed;
                    proof {
                        assert forall|ext: Seq<u8>| #[trigger] codec.valid(state.region() + ext) by {
                            assert(codec.valid(state.region() + ext));
                        }
                    }
                    return Some(Ok(Some((base + f.start, base + f.end))));
                },
                Ok(None) => {
                    state.is_framable = false;
                    proof {
                        assert forall|ext: Seq<u8>| #[trigger] codec.valid(state.region() + ext) by {
                            assert(state.region() == old(state).region());
                            assert(codec.valid(old(state).region() + ext));
                        }
                    }
                    if state.index != state.total_consumed {
                        return Some(Err(ReadError::BytesRemainingOnStream));
                    }
                    return None;
                },
                Err(e) => {
                    return Some(Err(ReadError::Decode(e)));
                },
            }
        }

        let buf_len = state.buffer.len();
        let src = vstd::slice::slice_subrange(
            state.buffer.as_slice(),
            state.total_consumed,
            state.index,
        );
        match codec.decode(src) {
            Ok(Some(f)) => {
                proof {
                    codec.lemma_spec_decode_wf(src@);
                }
                let base = state.total_consumed;
                state.total_consumed = base + f.consumed;
                proof {
                    assert forall|ext: Seq<u8>| #[trigger] codec.valid(state.region() + ext) by {
                        assert(codec.valid(state.region() + ext));
                    }
                }
                return Some(Ok(Some((base + f.start, base + f.end))));
            },
            Ok(None) => {
                state.shift = state.index >= buf_len;
                state.is_framable = false;
                return Some(Ok(None));
            },
            Err(e) => {
                return Some(Err(ReadError::Decode(e)));
            },
        }
    }

    if state.index >= state.buffer.len() {
        return Some(Err(ReadError::BufferTooSmall));
    }

    let start = state.index;
    match read.read(&mut state.buffer, start) {
        Err(e) => {
            proof {
                assert(state.buffer@.subrange(0, old(state).index as int) =~= old(
                    state,
                ).buffer@.subrange(0, old(state).index as int));
            }
            Some(Err(ReadError::IO(e)))
        },
        Ok(n) => {
            if n == 0 {
                state.eof = true;
                state.is_framable = true;
                proof {
                    assert forall|j: int| 0 <= j < old(state).index implies state.buffer@[j] == old(
                        state,
                    ).buffer@[j] by {
                        assert(state.buffer@.subrange(0, old(state).index as int)[j] == old(
                            state,
                        ).buffer@.subrange(0, old(state).index as int)[j]);
                    }
                    assert(state.region() =~= old(state).region());
                    assert forall|ext: Seq<u8>| #[trigger] codec.valid(state.region() + ext) by {
                        assert(codec.valid(old(state).region() + ext));
                    }
                }
                Some(Ok(None))
            } else {
                state.index = start + n;
                state.is_framable = true;
                proof {
                    assert forall|j: int| 0 <= j < old(state).index implies state.buffer@[j] == old(
                        state,
                    ).buffer@[j] by {
                        assert(state.buffer@.subrange(0, old(state).index as int)[j] == old(
                            state,
                        ).buffer@.subrange(0, old(state).index as int)[j]);
                    }
                    let newb = state.buffer@.subrange(
                        old(state).index as int,
                        state.index as int,
                    );
                    assert forall|ext: Seq<u8>| #[trigger] codec.valid(state.region() + ext) by {
                        assert(old(state).region() + (newb + ext) =~= state.region() + ext);
                        assert(codec.valid(old(state).region() + (newb + ext)));
                    }
                }
                Some(Ok(None))
            }
        },
    }
}


/// [`step_ok`] for an owned decoder: the whole relation of one
/// [`maybe_next_owned`] step.
pub open spec fn step_owned_ok<C: OwnedDecoder, R: TransportRead>(
    pre_state: ReadState,
    pre_codec: C,
    pre_read: R,
    post_state: ReadState,
    post_codec: C,
    post_read: R,
    r: Option<Result<Option<C::Item>, ReadError<R::Error, C::Error>>>,
) -> bool {
    &&& (same_framing_owned(&pre_codec, &post_codec))
    &&& (post_state.buffer.len() == pre_state.buffer.len())
    &&& (pre_state.eof ==> post_state.eof)
    &&& (
        pre_state.shift ==> {
            &&& r == Some(Ok::<Option<C::Item>, ReadError<R::Error, C::Error>>(None))
            &&& post_state.index == pre_state.index - pre_state.total_consumed
            &&& post_state.total_consumed == 0
            &&& post_state.shift == false
            &&& post_state.eof == pre_state.eof
            &&& post_state.is_framable == pre_state.is_framable
            &&& post_state.region() == pre_state.region()
            &&& (pre_state.total_consumed == 0 ==> post_state.buffer@ == pre_state.buffer@
                && post_state.index == pre_state.index)
            &&& post_codec == pre_codec
            &&& post_read == pre_read
            &&& read_wf_owned(&post_state, &post_codec)
        }
    )
    &&& (
        (!pre_state.shift && pre_state.is_framable && pre_state.eof) ==> match pre_codec.spec_decode_owned_eof(pre_state.region()) {
            Ok(Some((item, fc))) => {
                &&& (r matches Some(Ok(Some(i))) && i@ == item)
                &&& post_state.total_consumed == pre_state.total_consumed + fc
                &&& consumed_only(&pre_state, &post_state)
                &&& post_read == pre_read
                &&& read_wf_owned(&post_state, &post_codec)
            },
            Ok(None) => {
                &&& unframed_only(&pre_state, &post_state)
                &&& post_state.shift == pre_state.shift
                &&& post_read == pre_read
                &&& (if pre_state.index != pre_state.total_consumed {
                    r == Some(Err::<Option<C::Item>, ReadError<R::Error, C::Error>>(
                        ReadError::BytesRemainingOnStream,
                    ))
                } else {
                    r is None
                })
                &&& read_wf_owned(&post_state, &post_codec)
            },
            Err(e) => {
                &&& r == Some(Err::<Option<C::Item>, ReadError<R::Error, C::Error>>(
                    ReadError::Decode(e),
                ))
                &&& state_unchanged(&pre_state, &post_state)
                &&& post_read == pre_read
            },
        }
    )
    &&& (
        (!pre_state.shift && pre_state.is_framable && !pre_state.eof) ==> match pre_codec.spec_decode_owned(pre_state.region()) {
            Ok(Some((item, fc))) => {
                &&& (r matches Some(Ok(Some(i))) && i@ == item)
                &&& post_state.total_consumed == pre_state.total_consumed + fc
                &&& consumed_only(&pre_state, &post_state)
                &&& post_read == pre_read
                &&& read_wf_owned(&post_state, &post_codec)
            },
            Ok(None) => {
                &&& r == Some(Ok::<Option<C::Item>, ReadError<R::Error, C::Error>>(None))
                &&& unframed_only(&pre_state, &post_state)
                &&& post_state.shift == (pre_state.index >= pre_state.buffer.len())
                &&& post_read == pre_read
                &&& read_wf_owned(&post_state, &post_codec)
            },
            Err(e) => {
                &&& r == Some(Err::<Option<C::Item>, ReadError<R::Error, C::Error>>(
                    ReadError::Decode(e),
                ))
                &&& state_unchanged(&pre_state, &post_state)
                &&& post_read == pre_read
            },
        }
    )
    &&& (
        (!pre_state.shift && !pre_state.is_framable && pre_state.index >= pre_state.buffer.len()) ==> {
            &&& r == Some(Err::<Option<C::Item>, ReadError<R::Error, C::Error>>(
                ReadError::BufferTooSmall,
            ))
            &&& state_unchanged(&pre_state, &post_state)
            &&& post_codec == pre_codec
            &&& post_read == pre_read
            &&& read_wf_owned(&post_state, &post_codec)
        }
    )
    &&& (
        (!pre_state.shift && !pre_state.is_framable && pre_state.index < pre_state.buffer.len()) ==> {
            &&& post_codec == pre_codec
            &&& post_state.total_consumed == pre_state.total_consumed
            &&& post_state.shift == pre_state.shift
            &&& post_state.buffer@.subrange(0, pre_state.index as int) == pre_state.buffer@.subrange(0, pre_state.index as int)
            &&& match r {
                Some(Err(e)) => {
                    &&& e is IO
                    &&& post_state.index == pre_state.index
                    &&& post_state.eof == pre_state.eof
                    &&& post_state.is_framable == pre_state.is_framable
                    &&& post_state.buffer@ == pre_state.buffer@
                    &&& read_wf_owned(&post_state, &post_codec)
                },
                Some(Ok(None)) => {
                    &&& post_state.is_framable == true
                    &&& pre_state.index <= post_state.index <= post_state.buffer.len()
                    &&& post_state.eof == (pre_state.eof || post_state.index == pre_state.index)
                    &&& read_wf_owned(&post_state, &post_codec)
                },
                _ => false,
            }
        }
    )
}

/// Tries to decode one owned item: one step of the read state machine, as
/// [`maybe_next`], but over an [`OwnedDecoder`], whose item is independent of
/// the buffer.
pub fn maybe_next_owned<C: OwnedDecoder, R: TransportRead>(
    state: &mut ReadState,
    codec: &mut C,
    read: &mut R,
) -> (r: Option<Result<Option<C::Item>, ReadError<R::Error, C::Error>>>)
    requires
        read_wf_owned(old(state), old(codec)),
    ensures
        step_owned_ok(*old(state), *old(codec), *old(read), *final(state), *final(codec), *final(read), r),
{
    if state.shift {
        state.compact();
        proof {
            assert forall|ext: Seq<u8>| #[trigger] codec.valid(state.region() + ext) by {
                assert(codec.valid(old(state).region() + ext));
            }
        }
        return Some(Ok(None));
    }

    if state.is_framable {
        proof {
            assert(old(state).region() + Seq::<u8>::empty() =~= old(state).region());
            assert(codec.valid(old(state).region()));
        }
        if state.eof {
            let src = vstd::slice::slice_subrange(
                state.buffer.as_slice(),
                state.total_consumed,
                state.index,
            );
            match codec.decode_owned_eof(src) {
                Ok(Some((item, consumed))) => {
                    proof {
                        codec.lemma_spec_decode_owned_wf(src@);
                    }
                    state.total_consumed = state.total_consumed + consumed;
                    proof {
                        assert forall|ext: Seq<u8>| #[trigger] codec.valid(state.region() + ext) by {
                            assert(codec.valid(state.region() + ext));
                        }
                    }
                    return Some(Ok(Some(item)));
                },
                Ok(None) => {
                    state.is_framable = false;
                    proof {
                        assert forall|ext: Seq<u8>| #[trigger] codec.valid(state.region() + ext) by {
                            assert(state.region() == old(state).region());
                            assert(codec.valid(old(state).region() + ext));
                        }
                    }
                    if state.index != state.total_consumed {
                        return Some(Err(ReadError::BytesRemainingOnStream));
                    }
                    return None;
                },
                Err(e) => {
                    return Some(Err(ReadError::Decode(e)));
                },
            }
        }

        let buf_len = state.buffer.len();
        let src = vstd::slice::slice_subrange(
            state.buffer.as_slice(),
            state.total_consumed,
            state.index,
        );
        match codec.decode_owned(src) {
            Ok(Some((item, consumed))) => {
                proof {
                    codec.lemma_spec_decode_owned_wf(src@);
                }
                state.total_consumed = state.total_consumed + consumed;
                proof {
                    assert forall|ext: Seq<u8>| #[trigger] codec.valid(state.region() + ext) by {
                        assert(codec.valid(state.region() + ext));
                    }
                }
                return Some(Ok(Some(item)));
            },
            Ok(None) => {
                state.shift = state.index >= buf_len;
                state.is_framable = false;
                return Some(Ok(None));
            },
            Err(e) => {
                return Some(Err(ReadError::Decode(e)));
            },
        }
    }

    if state.index >= state.buffer.len() {
        return Some(Err(ReadError::BufferTooSmall));
    }

    let start = state.index;
    match read.read(&mut state.buffer, start) {
        Err(e) => {
            proof {
                assert(state.buffer@.subrange(0, old(state).index as int) =~= old(
                    state,
                ).buffer@.subrange(0, old(state).index as int));
            }
            Some(Err(ReadError::IO(e)))
        },
        Ok(n) => {
            if n == 0 {
                state.eof = true;
                state.is_framable = true;
                proof {
                    assert forall|j: int| 0 <= j < old(state).index implies state.buffer@[j] == old(
                        state,
                    ).buffer@[j] by {
                        assert(state.buffer@.subrange(0, old(state).index as int)[j] == old(
                            state,
                        ).buffer@.subrange(0, old(state).index as int)[j]);
                    }
                    assert(state.region() =~= old(state).region());
                    assert forall|ext: Seq<u8>| #[trigger] codec.valid(state.region() + ext) by {
                        assert(codec.valid(old(state).region() + ext));
                    }
                }
                Some(Ok(None))
            } else {
                state.index = start + n;
                state.is_framable = true;
                proof {
                    assert forall|j: int| 0 <= j < old(state).index implies state.buffer@[j] == old(
                        state,
                    ).buffer@[j] by {
                        assert(state.buffer@.subrange(0, old(state).index as int)[j] == old(
                            state,
                        ).buffer@.subrange(0, old(state).index as int)[j]);
                    }
                    let newb = state.buffer@.subrange(
                        old(state).index as int,
                        state.index as int,
                    );
                    assert forall|ext: Seq<u8>| #[trigger] codec.valid(state.region() + ext) by {
                        assert(old(state).region() + (newb + ext) =~= state.region() + ext);
                        assert(codec.valid(old(state).region() + (newb + ext)));
                    }
                }
                Some(Ok(None))
            }
        },
    }
}

/// The frame at `buffer[s..e]` is what the decoder cut off the region that
/// stood `n` consumed bytes ago: positions and consumed size agree with the
/// decoder's own framing function.
pub open spec fn frame_from<C: Decoder>(codec: &C, state: &ReadState, s: int, e: int, n: int) -> bool {
    let base = state.total_consumed - n;
    let pre = state.buffer@.subrange(base, state.index as int);
    &&& 0 <= n <= state.total_consumed
    &&& base <= s <= e <= state.index
    &&& (if state.eof {
        codec.spec_decode_eof(pre) == Ok::<Option<(int, int, int)>, C::Error>(Some((
            s - base,
            e - base,
            n,
        )))
    } else {
        codec.spec_decode(pre) == Ok::<Option<(int, int, int)>, C::Error>(Some((
            s - base,
            e - base,
            n,
        )))
    })
}

/// [`frame_from`] for an owned decoder: the item is what the decoder cut off
/// the region that stood `n` consumed bytes ago.
pub open spec fn item_from<C: OwnedDecoder>(
    codec: &C,
    state: &ReadState,
    item: <C::Item as View>::V,
    n: int,
) -> bool {
    let base = state.total_consumed - n;
    let pre = state.buffer@.subrange(base, state.index as int);
    &&& 0 <= n <= state.total_consumed
    &&& (if state.eof {
        codec.spec_decode_owned_eof(pre) == Ok::<Option<(<C::Item as View>::V, int)>, C::Error>(
            Some((item, n)),
        )
    } else {
        codec.spec_decode_owned(pre) == Ok::<Option<(<C::Item as View>::V, int)>, C::Error>(Some(
            (item, n),
        ))
    })
}

/// The frame at `buffer[s..e]` was cut by the decoder off some earlier
/// region: [`frame_from`] holds for its consumed size.
pub open spec fn framed_outcome<C: Decoder>(codec: &C, state: &ReadState, s: int, e: int) -> bool {
    exists|n: int| #[trigger] frame_from(codec, state, s, e, n)
}

/// The item was cut by the decoder off some earlier region: [`item_from`]
/// holds for its consumed size.
pub open spec fn item_outcome<C: OwnedDecoder>(
    codec: &C,
    state: &ReadState,
    item: <C::Item as View>::V,
) -> bool {
    exists|n: int| #[trigger] item_from(codec, state, item, n)
}


/// Where the available bytes will sit once a pending compaction has run: a
/// shift only moves the region to the front of the buffer.
pub open spec fn eff_consumed(state: ReadState) -> int {
    if state.shift {
        0
    } else {
        state.total_consumed as int
    }
}

/// The fill level once a pending compaction has run.
pub open spec fn eff_index(state: ReadState) -> int {
    if state.shift {
        state.index - state.total_consumed
    } else {
        state.index as int
    }
}

/// The pre-state alone already settles the loop's next outcome, with no
/// transport call in between: either the region is framable and the decoder
/// decides (always so at end of stream), or the buffer is full with nothing
/// framable and nothing a compaction could reclaim.  A pending shift does
/// not unsettle anything: it only rebases the region.
pub open spec fn settled<C: Decoder>(state: ReadState, codec: C) -> bool {
    if state.is_framable {
        state.eof || !(codec.spec_decode(state.region()) matches Ok(None))
    } else {
        eff_index(state) >= state.buffer.len()
    }
}

/// [`settled`] for an owned decoder.
pub open spec fn settled_owned<C: OwnedDecoder>(state: ReadState, codec: C) -> bool {
    if state.is_framable {
        state.eof || !(codec.spec_decode_owned(state.region()) matches Ok(None))
    } else {
        eff_index(state) >= state.buffer.len()
    }
}

/// The scalar bookkeeping a settled outcome leaves behind, relative to the
/// effective (post-compaction) position: the consumed count moved by `took`,
/// everything else held still but the framable flag.
pub open spec fn settled_state(pre: ReadState, post: ReadState, took: int, framable: bool) -> bool {
    &&& post.index == eff_index(pre)
    &&& post.total_consumed == eff_consumed(pre) + took
    &&& post.shift == false
    &&& post.eof == pre.eof
    &&& post.is_framable == framable
    &&& post.region() == pre.region().skip(took)
    &&& (!pre.shift ==> post.buffer@ == pre.buffer@)
}

/// What [`next`] guarantees: the decoder's framing is unchanged, end of
/// stream is monotone, a frame outcome is sound ([`framed_outcome`]) and
/// leaves the session well formed, the terminal outcome comes only at a
/// drained end of stream, and a [`settled`] pre-state pins the outcome
/// exactly.
pub open spec fn next_ok<C: Decoder, R: TransportRead>(
    pre_state: ReadState,
    pre_codec: C,
    post_state: ReadState,
    post_codec: C,
    r: Option<Result<(usize, usize), ReadError<R::Error, C::Error>>>,
) -> bool {
    &&& same_framing(&pre_codec, &post_codec)
    &&& post_state.buffer.len() == pre_state.buffer.len()
    &&& (pre_state.eof ==> post_state.eof)
    &&& (settled(pre_state, pre_codec) ==> if pre_state.is_framable {
        match (if pre_state.eof {
            pre_codec.spec_decode_eof(pre_state.region())
        } else {
            pre_codec.spec_decode(pre_state.region())
        }) {
            Ok(Some((fs, fe, fc))) => {
                &&& r == Some(Ok::<(usize, usize), ReadError<R::Error, C::Error>>((
                    (eff_consumed(pre_state) + fs) as usize,
                    (eff_consumed(pre_state) + fe) as usize,
                )))
                &&& settled_state(pre_state, post_state, fc, pre_state.is_framable)
            },
            Ok(None) => {
                &&& settled_state(pre_state, post_state, 0, false)
                &&& (if pre_state.region().len() != 0 {
                    r == Some(Err::<(usize, usize), ReadError<R::Error, C::Error>>(
                        ReadError::BytesRemainingOnStream,
                    ))
                } else {
                    r is None
                })
            },
            Err(e) => r == Some(Err::<(usize, usize), ReadError<R::Error, C::Error>>(
                ReadError::Decode(e),
            )) && settled_state(pre_state, post_state, 0, pre_state.is_framable),
        }
    } else {
        &&& r == Some(Err::<(usize, usize), ReadError<R::Error, C::Error>>(
            ReadError::BufferTooSmall,
        ))
        &&& settled_state(pre_state, post_state, 0, pre_state.is_framable)
        &&& post_codec == pre_codec
    })
    &&& match r {
        Some(Ok((s, e))) => read_wf(&post_state, &post_codec) && framed_outcome(
            &post_codec,
            &post_state,
            s as int,
            e as int,
        ),
        Some(Err(e)) => match e {
            ReadError::IO(_) => true,
            ReadError::Decode(de) => post_state.is_framable && (if post_state.eof {
                post_codec.spec_decode_eof(post_state.region()) == Err::<
                    Option<(int, int, int)>,
                    C::Error,
                >(de)
            } else {
                post_codec.spec_decode(post_state.region()) == Err::<
                    Option<(int, int, int)>,
                    C::Error,
                >(de)
            }),
            ReadError::BufferTooSmall => !post_state.is_framable && !post_state.shift
                && post_state.index == post_state.buffer.len(),
            ReadError::BytesRemainingOnStream => post_state.eof && !post_state.is_framable
                && post_state.index != post_state.total_consumed,
        },
        None => post_state.eof && !post_state.is_framable && post_state.index
            == post_state.total_consumed,
    }
}

/// [`next_ok`] for an owned decoder.
pub open spec fn next_owned_ok<C: OwnedDecoder, R: TransportRead>(
    pre_state: ReadState,
    pre_codec: C,
    post_state: ReadState,
    post_codec: C,
    r: Option<Result<C::Item, ReadError<R::Error, C::Error>>>,
) -> bool {
    &&& same_framing_owned(&pre_codec, &post_codec)
    &&& post_state.buffer.len() == pre_state.buffer.len()
    &&& (pre_state.eof ==> post_state.eof)
    &&& (settled_owned(pre_state, pre_codec) ==> if pre_state.is_framable {
        match (if pre_state.eof {
            pre_codec.spec_decode_owned_eof(pre_state.region())
        } else {
            pre_codec.spec_decode_owned(pre_state.region())
        }) {
            Ok(Some((item, fc))) => {
                &&& (r matches Some(Ok(i)) && i@ == item)
                &&& settled_state(pre_state, post_state, fc, pre_state.is_framable)
            },
            Ok(None) => {
                &&& settled_state(pre_state, post_state, 0, false)
                &&& (if pre_state.region().len() != 0 {
                    r == Some(Err::<C::Item, ReadError<R::Error, C::Error>>(
                        ReadError::BytesRemainingOnStream,
                    ))
                } else {
                    r is None
                })
            },
            Err(e) => r == Some(Err::<C::Item, ReadError<R::Error, C::Error>>(
                ReadError::Decode(e),
            )) && settled_state(pre_state, post_state, 0, pre_state.is_framable),
        }
    } else {
        &&& r == Some(Err::<C::Item, ReadError<R::Error, C::Error>>(ReadError::BufferTooSmall))
        &&& settled_state(pre_state, post_state, 0, pre_state.is_framable)
        &&& post_codec == pre_codec
    })
    &&& match r {
        Some(Ok(item)) => read_wf_owned(&post_state, &post_codec) && item_outcome(
            &post_codec,
            &post_state,
            item@,
        ),
        Some(Err(e)) => match e {
            ReadError::IO(_) => true,
            ReadError::Decode(de) => post_state.is_framable && (if post_state.eof {
                post_codec.spec_decode_owned_eof(post_state.region()) == Err::<
                    Option<(<C::Item as View>::V, int)>,
                    C::Error,
                >(de)
            } else {
                post_codec.spec_decode_owned(post_state.region()) == Err::<
                    Option<(<C::Item as View>::V, int)>,
                    C::Error,
                >(de)
            }),
            ReadError::BufferTooSmall => !post_state.is_framable && !post_state.shift
                && post_state.index == post_state.buffer.len(),
            ReadError::BytesRemainingOnStream => post_state.eof && !post_state.is_framable
                && post_state.index != post_state.total_consumed,
        },
        None => post_state.eof && !post_state.is_framable && post_state.index
            == post_state.total_consumed,
    }
}

/// What [`send`] guarantees: the encoder is left alone, and an encode error
/// comes exactly when the encoder rejects the item for this buffer size, in
/// which case nothing reaches the transport.
pub open spec fn send_ok<I: View, C: Encoder<I>, W: TransportWrite>(
    pre_state: WriteState,
    pre_codec: C,
    pre_write: W,
    post_state: WriteState,
    post_write: W,
    item: <I as View>::V,
    r: Result<(), WriteError<W::Error, C::Error>>,
) -> bool {
    &&& post_state.buffer.len() == pre_state.buffer.len()
    &&& (pre_codec.spec_encode(item, pre_state.buffer.len() as int) matches Ok(bytes)
        ==> post_state.buffer@.subrange(0, bytes.len() as int) == bytes
        && post_state.buffer@.subrange(bytes.len() as int, post_state.buffer.len() as int)
        == pre_state.buffer@.subrange(bytes.len() as int, pre_state.buffer.len() as int))
    &&& match r {
        Ok(_) => pre_codec.spec_encode(item, pre_state.buffer.len() as int) matches Ok(bytes)
            && post_write.accepted() == pre_write.accepted() + bytes && post_write.flushed()
            == post_write.accepted(),
        Err(e) => match e {
            WriteError::Encode(ee) => pre_codec.spec_encode(item, pre_state.buffer.len() as int)
                == Err::<Seq<u8>, C::Error>(ee) && post_state.buffer@ == pre_state.buffer@
                && post_write == pre_write,
            WriteError::IO(_) => pre_codec.spec_encode(item, pre_state.buffer.len() as int)
                matches Ok(bytes) && prefix_delivered(
                pre_write.accepted(),
                post_write.accepted(),
                bytes,
            ),
        },
    }
}

/// Reads frames until one is decoded or the session is over: loops
/// [`maybe_next`] past its progress outcomes.
///
/// # Return value
///
/// - `Some(Ok((start, end)))`: a frame was decoded; its bytes sit at
///   `state.buffer[start..end]` until the next call mutates the buffer.
/// - `Some(Err(error))`: the caller should stop reading.
/// - `None`: end of stream; the caller should stop reading.
pub fn next<C: Decoder, R: TransportRead>(
    state: &mut ReadState,
    codec: &mut C,
    read: &mut R,
) -> (r: Option<Result<(usize, usize), ReadError<R::Error, C::Error>>>)
    requires
        read_wf(old(state), old(codec)),
    ensures
        next_ok::<C, R>(*old(state), *old(codec), *final(state), *final(codec), r),
{
    loop
        invariant
            read_wf(state, codec),
            same_framing(old(codec), codec),
            state.buffer.len() == old(state).buffer.len(),
            old(state).eof ==> state.eof,
            settled(*old(state), *old(codec)) ==> *codec == *old(codec) && (*state == *old(state)
                || (old(state).shift && !state.shift && state.is_framable == old(
                state,
            ).is_framable && state.eof == old(state).eof && state.total_consumed == 0
                && state.index == old(state).index - old(state).total_consumed && state.region()
                == old(state).region())),
        decreases
            (if state.eof { 0int } else { 1int }),
            (if state.eof {
                (if state.is_framable { 0int } else { 1int })
            } else {
                2 * state.buffer.len() - 2 * state.index + 2 * state.total_consumed
            }),
            2 * (if state.is_framable { 1int } else { 0int }) + (if state.shift { 1int } else { 0int }),
    {
        let ghost pre_state = *state;
        match maybe_next(state, codec, read) {
            Some(Ok(Some((s, e)))) => {
                proof {
                    codec.lemma_spec_decode_wf(pre_state.region());
                    let n = state.total_consumed - pre_state.total_consumed;
                    assert(state.buffer@.subrange(
                        state.total_consumed - n,
                        state.index as int,
                    ) =~= pre_state.region());
                    assert(frame_from(codec, state, s as int, e as int, n));
                    assert(framed_outcome(codec, state, s as int, e as int));
                    if settled(*old(state), *old(codec)) {
                        // a frame comes only from a decode, so any pending
                        // shift already ran and the region was preserved
                        assert(pre_state.region() == old(state).region());
                        assert(state.region() =~= pre_state.region().skip(n));
                        assert(settled_state(*old(state), *state, n, old(state).is_framable));
                    }
                }
                return Some(Ok((s, e)));
            },
            Some(Ok(None)) => {
                proof {
                    if settled(*old(state), *old(codec)) {
                        // a settled state makes progress only by running its
                        // pending shift, which preserves the region
                        assert(pre_state == *old(state));
                        assert(old(state).shift);
                    }
                }
            },
            Some(Err(e)) => {
                proof {
                    if settled(*old(state), *old(codec)) {
                        assert(old(state).region().skip(0) =~= old(state).region());
                        assert(state.region() =~= pre_state.region());
                    }
                }
                return Some(Err(e));
            },
            None => {
                proof {
                    if settled(*old(state), *old(codec)) {
                        assert(old(state).region().skip(0) =~= old(state).region());
                        assert(state.region() =~= pre_state.region());
                    }
                }
                return None;
            },
        }
    }
}

/// Reads owned items until one is decoded or the session is over: loops
/// [`maybe_next_owned`] past its progress outcomes.
///
/// # Return value
///
/// - `Some(Ok(item))`: an item was decoded; the buffer owes it nothing.
/// - `Some(Err(error))`: the caller should stop reading.
/// - `None`: end of stream; the caller should stop reading.
pub fn next_owned<C: OwnedDecoder, R: TransportRead>(
    state: &mut ReadState,
    codec: &mut C,
    read: &mut R,
) -> (r: Option<Result<C::Item, ReadError<R::Error, C::Error>>>)
    requires
        read_wf_owned(old(state), old(codec)),
    ensures
        next_owned_ok::<C, R>(*old(state), *old(codec), *final(state), *final(codec), r),
{
    loop
        invariant
            read_wf_owned(state, codec),
            same_framing_owned(old(codec), codec),
            state.buffer.len() == old(state).buffer.len(),
            old(state).eof ==> state.eof,
            settled_owned(*old(state), *old(codec)) ==> *codec == *old(codec) && (*state == *old(
                state,
            ) || (old(state).shift && !state.shift && state.is_framable == old(
                state,
            ).is_framable && state.eof == old(state).eof && state.total_consumed == 0
                && state.index == old(state).index - old(state).total_consumed && state.region()
                == old(state).region())),
        decreases
            (if state.eof { 0int } else { 1int }),
            (if state.eof {
                (if state.is_framable { 0int } else { 1int })
            } else {
                2 * state.buffer.len() - 2 * state.index + 2 * state.total_consumed
            }),
            2 * (if state.is_framable { 1int } else { 0int }) + (if state.shift { 1int } else { 0int }),
    {
        let ghost pre_state = *state;
        match maybe_next_owned(state, codec, read) {
            Some(Ok(Some(item))) => {
                proof {
                    codec.lemma_spec_decode_owned_wf(pre_state.region());
                    let n = state.total_consumed - pre_state.total_consumed;
                    assert(state.buffer@.subrange(
                        state.total_consumed - n,
                        state.index as int,
                    ) =~= pre_state.region());
                    assert(item_from(codec, state, item@, n as int));
                    assert(item_outcome(codec, state, item@));
                    if settled_owned(*old(state), *old(codec)) {
                        // an item comes only from a decode, so any pending
                        // shift already ran and the region was preserved
                        assert(pre_state.region() == old(state).region());
                        assert(state.region() =~= pre_state.region().skip(n));
                        assert(settled_state(*old(state), *state, n as int, old(state).is_framable));
                    }
                }
                return Some(Ok(item));
            },
            Some(Ok(None)) => {
                proof {
                    if settled_owned(*old(state), *old(codec)) {
                        // a settled state makes progress only by running its
                        // pending shift, which preserves the region
                        assert(pre_state == *old(state));
                        assert(old(state).shift);
                    }
                }
            },
            Some(Err(e)) => {
                proof {
                    if settled_owned(*old(state), *old(codec)) {
                        assert(old(state).region().skip(0) =~= old(state).region());
                        assert(state.region() =~= pre_state.region());
                    }
                }
                return Some(Err(e));
            },
            None => {
                proof {
                    if settled_owned(*old(state), *old(codec)) {
                        assert(old(state).region().skip(0) =~= old(state).region());
                        assert(state.region() =~= pre_state.region());
                    }
                }
                return None;
            },
        }
    }
}

/// The sink's accepted bytes grew by some prefix of `bytes`: what a write
/// loop leaves behind when the transport fails partway.
pub open spec fn prefix_delivered(pre: Seq<u8>, post: Seq<u8>, bytes: Seq<u8>) -> bool {
    exists|k: int| 0 <= k <= bytes.len() && post == pre + #[trigger] bytes.subrange(0, k)
}

/// Writes `buf[..len]` to the sink whole, retrying short writes until every
/// byte is accepted: on success the sink accepted exactly those bytes, and
/// on a transport error it accepted some prefix of them.
pub fn write_all<W: TransportWrite>(write: &mut W, buf: &Vec<u8>, len: usize) -> (r: Result<
    (),
    W::Error,
>)
    requires
        len <= buf.len(),
    ensures
        final(write).flushed() == old(write).flushed(),
        match r {
            Ok(_) => final(write).accepted() == old(write).accepted() + buf@.subrange(
                0,
                len as int,
            ),
            Err(_) => prefix_delivered(
                old(write).accepted(),
                final(write).accepted(),
                buf@.subrange(0, len as int),
            ),
        },
        len == 0 ==> r is Ok,
{
    let mut pos: usize = 0;
    while pos < len
        invariant
            pos <= len,
            len <= buf@.len(),
            write.accepted() == old(write).accepted() + buf@.subrange(0, pos as int),
            write.flushed() == old(write).flushed(),
        decreases len - pos,
    {
        match write.write(buf, pos, len) {
            Ok(n) => {
                proof {
                    assert(write.accepted() =~= old(write).accepted() + buf@.subrange(
                        0,
                        pos + n,
                    ));
                }
                pos = pos + n;
            },
            Err(e) => {
                proof {
                    assert(buf@.subrange(0, len as int).subrange(0, pos as int) =~= buf@.subrange(
                        0,
                        pos as int,
                    ));
                    assert(prefix_delivered(
                        old(write).accepted(),
                        write.accepted(),
                        buf@.subrange(0, len as int),
                    ));
                }
                return Err(e);
            },
        }
    }
    proof {
        assert(buf@.subrange(0, pos as int) =~= buf@.subrange(0, len as int));
    }
    Ok(())
}

/// Sends a frame: encodes it into the scratch buffer, writes the encoded
/// prefix whole, and flushes the sink.
///
/// Success is owed whenever the item encodes into the scratch buffer and the
/// transport cooperates: an [`WriteError::Encode`] comes exactly when the
/// encoder rejects the item for this buffer size, and then nothing reaches
/// the transport.  On success the sink has accepted exactly the encoded
/// frame and flushed through it; on a transport failure it holds some prefix
/// of the frame.
pub fn send<I: View, C: Encoder<I>, W: TransportWrite>(
    state: &mut WriteState,
    codec: &mut C,
    write: &mut W,
    item: &I,
) -> (r: Result<(), WriteError<W::Error, C::Error>>)
    ensures
        *final(codec) == *old(codec),
        send_ok(*old(state), *old(codec), *old(write), *final(state), *final(write), item@, r),
{
    match codec.encode(item, &mut state.buffer) {
        Ok(size) => {
            let ghost bytes = state.buffer@.subrange(0, size as int);
            match write_all(write, &state.buffer, size) {
                Ok(_) => {
                    match write.flush() {
                        Ok(_) => Ok(()),
                        Err(e) => {
                            proof {
                                assert(bytes.subrange(0, bytes.len() as int) =~= bytes);
                                assert(prefix_delivered(
                                    old(write).accepted(),
                                    write.accepted(),
                                    bytes,
                                ));
                            }
                            Err(WriteError::IO(e))
                        },
                    }
                },
                Err(e) => {
                    proof {
                        assert(prefix_delivered(old(write).accepted(), write.accepted(), bytes));
                    }
                    Err(WriteError::IO(e))
                },
            }
        },
        Err(e) => Err(WriteError::Encode(e)),
    }
}

/// The outcome of one transport-free step of the read state machine.
pub enum Step<E> {
    /// State advanced; step again.
    Progress,
    /// A frame was decoded; its bytes sit at `buffer[start..end]`.
    Frame(usize, usize),
    /// The step failed; the caller should stop.
    Fail(E),
    /// End of stream; the caller should stop.
    Terminal,
    /// Bytes must be read into `buffer[index..]` and reported through
    /// [`apply_read`] before the next step.
    NeedRead,
}

/// The outcome of one transport-free step over an owned decoder.
pub enum StepOwned<T, E> {
    /// State advanced; step again.
    Progress,
    /// An item was decoded.
    Item(T),
    /// The step failed; the caller should stop.
    Fail(E),
    /// End of stream; the caller should stop.
    Terminal,
    /// Bytes must be read into `buffer[index..]` and reported through
    /// [`apply_read`] before the next step.
    NeedRead,
}

/// Everything one step of [`maybe_next`] does short of pulling bytes from
/// the transport: a driver that owns the transport reads into
/// `buffer[index..]` when told to and reports the count with
/// [`apply_read`].
pub fn advance<I, C: Decoder>(state: &mut ReadState, codec: &mut C) -> (r: Step<
    ReadError<I, C::Error>,
>)
    requires
        read_wf(old(state), old(codec)),
    ensures
        same_framing(old(codec), final(codec)),
        final(state).buffer.len() == old(state).buffer.len(),
        final(state).eof == old(state).eof,
        old(state).shift ==> {
            &&& r is Progress
            &&& final(state).index == old(state).index - old(state).total_consumed
            &&& final(state).total_consumed == 0
            &&& final(state).shift == false
            &&& final(state).is_framable == old(state).is_framable
            &&& final(state).region() == old(state).region()
            &&& (old(state).total_consumed == 0 ==> final(state).buffer@ == old(state).buffer@
                && final(state).index == old(state).index)
            &&& *final(codec) == *old(codec)
            &&& read_wf(final(state), final(codec))
        },
        (!old(state).shift && old(state).is_framable && old(state).eof) ==> match old(
            codec,
        ).spec_decode_eof(old(state).region()) {
            Ok(Some((fs, fe, fc))) => {
                &&& r == Step::<ReadError<I, C::Error>>::Frame(
                    (old(state).total_consumed + fs) as usize,
                    (old(state).total_consumed + fe) as usize,
                )
                &&& final(state).total_consumed == old(state).total_consumed + fc
                &&& consumed_only(old(state), final(state))
                &&& read_wf(final(state), final(codec))
            },
            Ok(None) => {
                &&& unframed_only(old(state), final(state))
                &&& final(state).shift == old(state).shift
                &&& (if old(state).index != old(state).total_consumed {
                    r == Step::<ReadError<I, C::Error>>::Fail(ReadError::BytesRemainingOnStream)
                } else {
                    r is Terminal
                })
                &&& read_wf(final(state), final(codec))
            },
            Err(e) => {
                &&& r == Step::<ReadError<I, C::Error>>::Fail(ReadError::Decode(e))
                &&& state_unchanged(old(state), final(state))
            },
        },
        (!old(state).shift && old(state).is_framable && !old(state).eof) ==> match old(
            codec,
        ).spec_decode(old(state).region()) {
            Ok(Some((fs, fe, fc))) => {
                &&& r == Step::<ReadError<I, C::Error>>::Frame(
                    (old(state).total_consumed + fs) as usize,
                    (old(state).total_consumed + fe) as usize,
                )
                &&& final(state).total_consumed == old(state).total_consumed + fc
                &&& consumed_only(old(state), final(state))
                &&& read_wf(final(state), final(codec))
            },
            Ok(None) => {
                &&& r is Progress
                &&& unframed_only(old(state), final(state))
                &&& final(state).shift == (old(state).index >= old(state).buffer.len())
                &&& read_wf(final(state), final(codec))
            },
            Err(e) => {
                &&& r == Step::<ReadError<I, C::Error>>::Fail(ReadError::Decode(e))
                &&& state_unchanged(old(state), final(state))
            },
        },
        (!old(state).shift && !old(state).is_framable) ==> {
            &&& state_unchanged(old(state), final(state))
            &&& *final(codec) == *old(codec)
            &&& read_wf(final(state), final(codec))
            &&& (if old(state).index >= old(state).buffer.len() {
                r == Step::<ReadError<I, C::Error>>::Fail(ReadError::BufferTooSmall)
            } else {
                r is NeedRead
            })
        },
{
    if state.shift {
        state.compact();
        proof {
            assert forall|ext: Seq<u8>| #[trigger] codec.valid(state.region() + ext) by {
                assert(codec.valid(old(state).region() + ext));
            }
        }
        return Step::Progress;
    }

    if state.is_framable {
        proof {
            assert(old(state).region() + Seq::<u8>::empty() =~= old(state).region());
            assert(codec.valid(old(state).region()));
        }
        if state.eof {
            let src = vstd::slice::slice_subrange(
                state.buffer.as_slice(),
                state.total_consumed,
                state.index,
            );
            match codec.decode_eof(src) {
                Ok(Some(f)) => {
                    proof {
                        codec.lemma_spec_decode_wf(src@);
                    }
                    let base = state.total_consumed;
                    state.total_consumed = base + f.consumed;
                    proof {
                        assert forall|ext: Seq<u8>| #[trigger] codec.valid(state.region() + ext) by {
                            assert(codec.valid(state.region() + ext));
                        }
                    }
                    return Step::Frame(base + f.start, base + f.end);
                },
                Ok(None) => {
                    state.is_framable = false;
                    proof {
                        assert forall|ext: Seq<u8>| #[trigger] codec.valid(state.region() + ext) by {
                            assert(state.region() == old(state).region());
                            assert(codec.valid(old(state).region() + ext));
                        }
                    }
                    if state.index != state.total_consumed {
                        return Step::Fail(ReadError::BytesRemainingOnStream);
                    }
                    return Step::Terminal;
                },
                Err(e) => {
                    return Step::Fail(ReadError::Decode(e));
                },
            }
        }

        let buf_len = state.buffer.len();
        let src = vstd::slice::slice_subrange(
            state.buffer.as_slice(),
            state.total_consumed,
            state.index,
        );
        match codec.decode(src) {
            Ok(Some(f)) => {
                proof {
                    codec.lemma_spec_decode_wf(src@);
                }
                let base = state.total_consumed;
                state.total_consumed = base + f.consumed;
                proof {
                    assert forall|ext: Seq<u8>| #[trigger] codec.valid(state.region() + ext) by {
                        assert(codec.valid(state.region() + ext));
                    }
                }
                return Step::Frame(base + f.start, base + f.end);
            },
            Ok(None) => {
                state.shift = state.index >= buf_len;
                state.is_framable = false;
                return Step::Progress;
            },
            Err(e) => {
                return Step::Fail(ReadError::Decode(e));
            },
        }
    }

    if state.index >= state.buffer.len() {
        return Step::Fail(ReadError::BufferTooSmall);
    }
    Step::NeedRead
}

/// [`advance`] over an owned decoder.
pub fn advance_owned<I, C: OwnedDecoder>(state: &mut ReadState, codec: &mut C) -> (r: StepOwned<
    C::Item,
    ReadError<I, C::Error>,
>)
    requires
        read_wf_owned(old(state), old(codec)),
    ensures
        same_framing_owned(old(codec), final(codec)),
        final(state).buffer.len() == old(state).buffer.len(),
        final(state).eof == old(state).eof,
        old(state).shift ==> {
            &&& r is Progress
            &&& final(state).index == old(state).index - old(state).total_consumed
            &&& final(state).total_consumed == 0
            &&& final(state).shift == false
            &&& final(state).is_framable == old(state).is_framable
            &&& final(state).region() == old(state).region()
            &&& (old(state).total_consumed == 0 ==> final(state).buffer@ == old(state).buffer@
                && final(state).index == old(state).index)
            &&& *final(codec) == *old(codec)
            &&& read_wf_owned(final(state), final(codec))
        },
        (!old(state).shift && old(state).is_framable && old(state).eof) ==> match old(
            codec,
        ).spec_decode_owned_eof(old(state).region()) {
            Ok(Some((item, fc))) => {
                &&& (r matches StepOwned::Item(i) && i@ == item)
                &&& final(state).total_consumed == old(state).total_consumed + fc
                &&& consumed_only(old(state), final(state))
                &&& read_wf_owned(final(state), final(codec))
            },
            Ok(None) => {
                &&& unframed_only(old(state), final(state))
                &&& final(state).shift == old(state).shift
                &&& (if old(state).index != old(state).total_consumed {
                    r == StepOwned::<C::Item, ReadError<I, C::Error>>::Fail(
                        ReadError::BytesRemainingOnStream,
                    )
                } else {
                    r is Terminal
                })
                &&& read_wf_owned(final(state), final(codec))
            },
            Err(e) => {
                &&& r == StepOwned::<C::Item, ReadError<I, C::Error>>::Fail(ReadError::Decode(e))
                &&& state_unchanged(old(state), final(state))
            },
        },
        (!old(state).shift && old(state).is_framable && !old(state).eof) ==> match old(
            codec,
        ).spec_decode_owned(old(state).region()) {
            Ok(Some((item, fc))) => {
                &&& (r matches StepOwned::Item(i) && i@ == item)
                &&& final(state).total_consumed == old(state).total_consumed + fc
                &&& consumed_only(old(state), final(state))
                &&& read_wf_owned(final(state), final(codec))
            },
            Ok(None) => {
                &&& r is Progress
                &&& unframed_only(old(state), final(state))
                &&& final(state).shift == (old(state).index >= old(state).buffer.len())
                &&& read_wf_owned(final(state), final(codec))
            },
            Err(e) => {
                &&& r == StepOwned::<C::Item, ReadError<I, C::Error>>::Fail(ReadError::Decode(e))
                &&& state_unchanged(old(state), final(state))
            },
        },
        (!old(state).shift && !old(state).is_framable) ==> {
            &&& state_unchanged(old(state), final(state))
            &&& *final(codec) == *old(codec)
            &&& read_wf_owned(final(state), final(codec))
            &&& (if old(state).index >= old(state).buffer.len() {
                r == StepOwned::<C::Item, ReadError<I, C::Error>>::Fail(ReadError::BufferTooSmall)
            } else {
                r is NeedRead
            })
        },
{
    if state.shift {
        state.compact();
        proof {
            assert forall|ext: Seq<u8>| #[trigger] codec.valid(state.region() + ext) by {
                assert(codec.valid(old(state).region() + ext));
            }
        }
        return StepOwned::Progress;
    }

    if state.is_framable {
        proof {
            assert(old(state).region() + Seq::<u8>::empty() =~= old(state).region());
            assert(codec.valid(old(state).region()));
        }
        if state.eof {
            let src = vstd::slice::slice_subrange(
                state.buffer.as_slice(),
                state.total_consumed,
                state.index,
            );
            match codec.decode_owned_eof(src) {
                Ok(Some((item, consumed))) => {
                    proof {
                        codec.lemma_spec_decode_owned_wf(src@);
                    }
                    state.total_consumed = state.total_consumed + consumed;
                    proof {
                        assert forall|ext: Seq<u8>| #[trigger] codec.valid(state.region() + ext) by {
                            assert(codec.valid(state.region() + ext));
                        }
                    }
                    return StepOwned::Item(item);
                },
                Ok(None) => {
                    state.is_framable = false;
                    proof {
                        assert forall|ext: Seq<u8>| #[trigger] codec.valid(state.region() + ext) by {
                            assert(state.region() == old(state).region());
                            assert(codec.valid(old(state).region() + ext));
                        }
                    }
                    if state.index != state.total_consumed {
                        return StepOwned::Fail(ReadError::BytesRemainingOnStream);
                    }
                    return StepOwned::Terminal;
                },
                Err(e) => {
                    return StepOwned::Fail(ReadError::Decode(e));
                },
            }
        }

        let buf_len = state.buffer.len();
        let src = vstd::slice::slice_subrange(
            state.buffer.as_slice(),
            state.total_consumed,
            state.index,
        );
        match codec.decode_owned(src) {
            Ok(Some((item, consumed))) => {
                proof {
                    codec.lemma_spec_decode_owned_wf(src@);
                }
                state.total_consumed = state.total_consumed + consumed;
                proof {
                    assert forall|ext: Seq<u8>| #[trigger] codec.valid(state.region() + ext) by {
                        assert(codec.valid(state.region() + ext));
                    }
                }
                return StepOwned::Item(item);
            },
            Ok(None) => {
                state.shift = state.index >= buf_len;
                state.is_framable = false;
                return StepOwned::Progress;
            },
            Err(e) => {
                return StepOwned::Fail(ReadError::Decode(e));
            },
        }
    }

    if state.index >= state.buffer.len() {
        return StepOwned::Fail(ReadError::BufferTooSmall);
    }
    StepOwned::NeedRead
}

/// Applies the result of a transport read that a [`Step::NeedRead`] asked
/// for: `n` bytes arrived at `buffer[index..]`; zero bytes mean end of
/// stream.
pub fn apply_read(state: &mut ReadState, n: usize)
    requires
        old(state).wf(),
        !old(state).shift,
        !old(state).is_framable,
        old(state).index + n <= old(state).buffer.len(),
    ensures
        final(state).wf(),
        final(state).index == old(state).index + n,
        final(state).total_consumed == old(state).total_consumed,
        final(state).shift == old(state).shift,
        final(state).buffer == old(state).buffer,
        final(state).eof == (old(state).eof || n == 0),
        final(state).is_framable == true,
{
    if n == 0 {
        state.eof = true;
    }
    state.index = state.index + n;
    state.is_framable = true;
}

} // verus!
