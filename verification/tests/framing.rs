use framez::codec::bytes::Bytes;
use framez::codec::delimiter::Delimiter;
use framez::codec::lines::{Lines, StrLines};
use framez::error::ReadError;
use framez::functions::{advance, apply_read, Step};
use framez::framed::FramedRead;
use framez::mock::ChunkReader;
use framez::state::ReadState;

fn chunks(items: &[&[u8]]) -> ChunkReader {
    ChunkReader::new(items.iter().map(|c| c.to_vec()).collect())
}

/// Runs a framing session to its end: collects the decoded frames as owned
/// byte vectors and returns them with the terminal error, if any.
fn run_lines(
    items: &[&[u8]],
    buffer_size: usize,
) -> (Vec<Vec<u8>>, Option<ReadError<core::convert::Infallible, core::convert::Infallible>>) {
    let mut framer = FramedRead::new(Lines::new(), chunks(items), vec![0u8; buffer_size]);
    let mut collected = Vec::new();
    loop {
        match framer.next() {
            Some(Ok((s, e))) => collected.push(framer.frame(s, e).to_vec()),
            Some(Err(err)) => return (collected, Some(err)),
            None => return (collected, None),
        }
    }
}

const LINE_CHUNKS: &[&[u8]] = &[
    b"Hel",
    b"lo\n",
    b"Hell",
    b"o, world!\n",
    b"H",
    b"ei\r\n",
    b"sup",
    b"\n",
    b"Hey\r",
    b"\n",
    b"How ",
    b"are y",
];

#[test]
fn lines_framed_read() {
    let expected: &[&[u8]] = &[b"Hello", b"Hello, world!", b"Hei", b"sup", b"Hey"];
    let (collected, err) = run_lines(LINE_CHUNKS, 16);
    assert_eq!(collected, expected.iter().map(|f| f.to_vec()).collect::<Vec<_>>());
    assert!(matches!(err, Some(ReadError::BytesRemainingOnStream)));

    // a big buffer frames the same stream the same way
    let (collected, err) = run_lines(LINE_CHUNKS, 1024);
    assert_eq!(collected, expected.iter().map(|f| f.to_vec()).collect::<Vec<_>>());
    assert!(matches!(err, Some(ReadError::BytesRemainingOnStream)));

    // tiny buffers cannot hold one frame at all
    for size in [1, 2, 4] {
        let (collected, err) = run_lines(LINE_CHUNKS, size);
        assert!(collected.is_empty());
        assert!(matches!(err, Some(ReadError::BufferTooSmall)));
    }
}

#[test]
fn lines_framed_read_small_buffer() {
    // an 8-byte buffer yields the first frame, then chokes on the 13-byte one
    let (collected, err) = run_lines(LINE_CHUNKS, 8);
    assert_eq!(collected, vec![b"Hello".to_vec()]);
    assert!(matches!(err, Some(ReadError::BufferTooSmall)));
}

#[test]
fn framed_read_str() {
    let mut framer = FramedRead::new(StrLines::new(), chunks(LINE_CHUNKS), vec![0u8; 16]);
    let mut collected: Vec<String> = Vec::new();
    let err = loop {
        match framer.next() {
            Some(Ok((s, e))) => collected.push(
                core::str::from_utf8(framer.frame(s, e)).unwrap().to_string(),
            ),
            Some(Err(err)) => break Some(err),
            None => break None,
        }
    };
    assert_eq!(collected, vec!["Hello", "Hello, world!", "Hei", "sup", "Hey"]);
    assert!(matches!(err, Some(ReadError::BytesRemainingOnStream)));
}

const DELIM_CHUNKS: &[&[u8]] = &[
    b"jh asjd##ppppppppppppppp##",
    b"k hb##jsjuwjal kadj##jsadhjiu##w",
    b"##jal kadjjsadhjiuwqens ##",
    b"nd ",
    b"yxxcjajsdi##askdn as",
    b"jdasd##iouqw es",
    b"sd##k",
];

fn run_delimiter(
    items: &[&[u8]],
    buffer_size: usize,
) -> (Vec<Vec<u8>>, Option<ReadError<core::convert::Infallible, core::convert::Infallible>>) {
    let codec = Delimiter::new(b"##".to_vec());
    let mut framer = FramedRead::new(codec, chunks(items), vec![0u8; buffer_size]);
    let mut collected = Vec::new();
    loop {
        match framer.next() {
            Some(Ok((s, e))) => collected.push(framer.frame(s, e).to_vec()),
            Some(Err(err)) => return (collected, Some(err)),
            None => return (collected, None),
        }
    }
}

#[test]
fn delimiter_framed_read() {
    let expected: &[&[u8]] = &[
        b"jh asjd",
        b"ppppppppppppppp",
        b"k hb",
        b"jsjuwjal kadj",
        b"jsadhjiu",
        b"w",
        b"jal kadjjsadhjiuwqens ",
        b"nd yxxcjajsdi",
        b"askdn asjdasd",
        b"iouqw essd",
    ];
    let (collected, err) = run_delimiter(DELIM_CHUNKS, 32);
    assert_eq!(collected, expected.iter().map(|f| f.to_vec()).collect::<Vec<_>>());
    assert!(matches!(err, Some(ReadError::BytesRemainingOnStream)));

    let (collected, err) = run_delimiter(DELIM_CHUNKS, 1024);
    assert_eq!(collected, expected.iter().map(|f| f.to_vec()).collect::<Vec<_>>());
    assert!(matches!(err, Some(ReadError::BytesRemainingOnStream)));

    // a 16-byte buffer holds the first frame only
    let (collected, err) = run_delimiter(DELIM_CHUNKS, 16);
    assert_eq!(collected, vec![b"jh asjd".to_vec()]);
    assert!(matches!(err, Some(ReadError::BufferTooSmall)));

    for size in [1, 2, 4] {
        let (collected, err) = run_delimiter(DELIM_CHUNKS, size);
        assert!(collected.is_empty());
        assert!(matches!(err, Some(ReadError::BufferTooSmall)));
    }
}

#[test]
fn delimiter_embedded_empty_frames() {
    // consecutive delimiters give empty between-delimiter frames
    let (collected, err) = run_delimiter(&[b"a####b##"], 32);
    let expected: &[&[u8]] = &[b"a", b"", b"b"];
    assert_eq!(collected, expected.iter().map(|f| f.to_vec()).collect::<Vec<_>>());
    assert!(err.is_none());
}

#[test]
fn bytes_framed_read() {
    // the raw bytes codec hands out whatever arrived as one frame, and once
    // everything is consumed it keeps framing the empty region
    let mut framer = FramedRead::new(Bytes::new(), chunks(&[b"ab", b"cde"]), vec![0u8; 8]);
    let first = framer.next();
    assert!(matches!(first, Some(Ok((0, 2)))));
    assert_eq!(framer.frame(0, 2), b"ab");
    let second = framer.next();
    assert!(matches!(second, Some(Ok((2, 2)))));
    assert_eq!(framer.frame(2, 2), b"");
}

#[test]
fn shift_with_nothing_consumed_is_noop() {
    // the compaction that the driver schedules on a full buffer leaves the
    // contents alone when nothing was consumed yet
    let mut state = ReadState::new(vec![1, 2, 3, 4]);
    state.index = 4;
    state.shift = true;
    state.compact();
    assert_eq!(state.buffer, vec![1, 2, 3, 4]);
    assert_eq!(state.index, 4);
    assert_eq!(state.total_consumed, 0);
    assert!(!state.shift);
}

#[test]
fn compact_moves_unconsumed_bytes_to_front() {
    let mut state = ReadState::new(vec![1, 2, 3, 4, 5]);
    state.index = 4;
    state.total_consumed = 2;
    state.shift = true;
    state.compact();
    assert_eq!(state.index, 2);
    assert_eq!(state.total_consumed, 0);
    assert_eq!(&state.buffer[..2], &[3, 4]);
    assert_eq!(state.buffer.len(), 5);
}

#[test]
fn read_state_bookkeeping() {
    let state = ReadState::new(vec![0u8; 8]);
    assert_eq!(state.framable(), 0);
    let mut state = state.reset();
    state.index = 5;
    state.total_consumed = 2;
    assert_eq!(state.framable(), 3);
    let state = ReadState::empty();
    assert_eq!(state.buffer.len(), 0);
}

#[test]
fn framed_read_parts() {
    let framer = FramedRead::new(Lines::new(), chunks(&[b"x\n"]), vec![0u8; 8]);
    assert_eq!(framer.framable(), 0);
    let (codec, reader, state) = framer.into_parts();
    let mut framer = FramedRead::from_parts(codec, reader, state);
    let r = framer.next();
    assert!(matches!(r, Some(Ok((0, 1)))));
    assert_eq!(framer.frame(0, 1), b"x");
    let _ = framer.codec();
    let _ = framer.inner();
    let _ = framer.codec_mut();
    let _ = framer.inner_mut();
}

#[test]
fn advance_and_apply_read_drive_a_session() {
    let mut state = ReadState::new(vec![0u8; 8]);
    let mut codec = Lines::new();

    // nothing buffered: the step asks for bytes
    assert!(matches!(
        advance::<core::convert::Infallible, _>(&mut state, &mut codec),
        Step::NeedRead
    ));
    // hand it a read of "hi\n" as if a transport had filled the tail
    state.buffer[0] = b'h';
    state.buffer[1] = b'i';
    state.buffer[2] = b'\n';
    apply_read(&mut state, 3);
    match advance::<core::convert::Infallible, _>(&mut state, &mut codec) {
        Step::Frame(s, e) => assert_eq!(&state.buffer[s..e], b"hi"),
        _ => panic!("expected a frame"),
    }
    // a read of zero bytes means end of stream
    match advance::<core::convert::Infallible, _>(&mut state, &mut codec) {
        Step::Progress => {},
        _ => panic!("expected progress"),
    }
    apply_read(&mut state, 0);
    assert!(matches!(
        advance::<core::convert::Infallible, _>(&mut state, &mut codec),
        Step::Terminal
    ));
}
