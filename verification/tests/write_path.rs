use framez::codec::lines::{Lines, LinesEncodeError, OwnedLines, StringLines};
use framez::framed::FramedRead;
use framez::error::WriteError;
use framez::framed::{Framed, FramedReadOwned, FramedWrite};
use framez::mock::{ChunkReader, Noop, RecordingWriter};

#[test]
fn send_line_writes_terminator_and_flushes() {
    // the bytes on the wire are exactly the line plus its terminator, and
    // the sink is flushed once per send, after the write
    let mut writer = FramedWrite::new(Lines::new(), RecordingWriter::new(), vec![0u8; 1024]);
    writer.send(&b"Line".to_vec()).expect("Must send");
    assert_eq!(writer.inner().written().as_slice(), b"Line\r\n");
    assert_eq!(writer.inner().flush_count(), 1);
}

#[test]
fn send_retries_short_writes() {
    // a sink that takes two bytes per call still receives everything
    let mut writer =
        FramedWrite::new(Lines::new(), RecordingWriter::new_with_cap(2), vec![0u8; 1024]);
    writer.send(&b"Hello, world!".to_vec()).expect("Must send");
    writer.send(&b"Hei".to_vec()).expect("Must send");
    assert_eq!(writer.inner().written().as_slice(), b"Hello, world!\r\nHei\r\n");
    assert_eq!(writer.inner().flush_count(), 2);
}

#[test]
fn send_encode_error_reaches_caller() {
    let mut writer = FramedWrite::new(Lines::new(), RecordingWriter::new(), vec![0u8; 4]);
    let r = writer.send(&b"too long".to_vec());
    assert_eq!(r, Err(WriteError::Encode(LinesEncodeError::BufferTooSmall)));
    // nothing reached the wire
    assert_eq!(writer.inner().written().len(), 0);
    assert_eq!(writer.inner().flush_count(), 0);
}

#[test]
fn sink_stream() {
    // items sent one by one come back unchanged through the owned line codec
    let items: Vec<Vec<u8>> = vec![
        b"Hello".to_vec(),
        b"Hello, world!".to_vec(),
        b"Hei".to_vec(),
        b"sup".to_vec(),
        b"Hey".to_vec(),
    ];

    let mut writer =
        FramedWrite::new(OwnedLines::<32>::new(), RecordingWriter::new(), vec![0u8; 1024]);
    for item in items.iter() {
        writer.send(item).expect("Must send");
    }
    let (_, sink, _) = writer.into_parts();
    let wire = sink.written().clone();

    let mut framer = FramedReadOwned::new(
        OwnedLines::<32>::new(),
        ChunkReader::new(vec![wire]),
        vec![0u8; 1024],
    );
    let mut collected: Vec<Vec<u8>> = Vec::new();
    loop {
        match framer.next() {
            Some(Ok(item)) => collected.push(item),
            Some(Err(err)) => panic!("Error {err:?}"),
            None => break,
        }
    }
    assert_eq!(collected, items);
}

#[test]
fn sink_stream_str() {
    let items: Vec<String> = vec![
        String::from("Hello"),
        String::from("Hello, world!"),
        String::from("Hei"),
        String::from("sup"),
        String::from("Hey"),
    ];

    let mut writer =
        FramedWrite::new(StringLines::<32>::new(), RecordingWriter::new(), vec![0u8; 1024]);
    for item in items.iter() {
        writer.send(item).expect("Must send");
    }
    let (_, sink, _) = writer.into_parts();
    let wire = sink.written().clone();

    let mut framer = FramedReadOwned::new(
        StringLines::<32>::new(),
        ChunkReader::new(vec![wire]),
        vec![0u8; 1024],
    );
    let mut collected: Vec<String> = Vec::new();
    loop {
        match framer.next() {
            Some(Ok(item)) => collected.push(item),
            Some(Err(err)) => panic!("Error {err:?}"),
            None => break,
        }
    }
    assert_eq!(collected, items);
}

#[test]
fn bidirectional_framed_session() {
    // one engine over one transport: frames out of the read half, items into
    // the write half
    let mut framed = Framed::new(
        Lines::new(),
        ChunkReader::new(vec![b"ping\n".to_vec()]),
        vec![0u8; 64],
        vec![0u8; 64],
    );
    let r = framed.next();
    assert!(matches!(r, Some(Ok((0, 4)))));
    assert_eq!(framed.frame(0, 4), b"ping");
    assert_eq!(framed.framable(), 0);

    let mut framed = Framed::new(Lines::new(), Noop::new(), vec![0u8; 64], vec![0u8; 64]);
    framed.send(&b"pong".to_vec()).expect("Must send");
    let (_, _, state) = framed.into_parts();
    assert_eq!(state.write.buffer.len(), 64);
    let state = state.reset();
    assert_eq!(state.read.index, 0);
}

#[test]
fn maybe_next_steps_one_at_a_time() {
    let mut framer = FramedRead::new(
        Lines::new(),
        ChunkReader::new(vec![b"a\nb\n".to_vec()]),
        vec![0u8; 8],
    );
    // first step reads, second step frames
    assert!(matches!(framer.maybe_next(), Some(Ok(None))));
    assert!(matches!(framer.maybe_next(), Some(Ok(Some((0, 1))))));
    assert_eq!(framer.frame(0, 1), b"a");
    assert!(matches!(framer.maybe_next(), Some(Ok(Some((2, 3))))));
    assert_eq!(framer.frame(2, 3), b"b");
    // nothing left to frame, then end of stream, then the terminal outcome
    assert!(matches!(framer.maybe_next(), Some(Ok(None))));
    assert!(matches!(framer.maybe_next(), Some(Ok(None))));
    assert!(framer.maybe_next().is_none());
}
