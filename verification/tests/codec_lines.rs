use framez::codec::lines::{
    Lines, LinesEncodeError, OwnedLines, OwnedLinesDecodeError, StrLines, StrLinesDecodeError,
    StringLines, StringLinesDecodeError,
};
use framez::decode::{Decoder, FrameSpan, OwnedDecoder};
use framez::encode::Encoder;

#[test]
fn lines_decode_simple() {
    let mut codec = Lines::new();
    let mut src = b"Hello\nrest".to_vec();
    let r = codec.decode(src.as_mut_slice()).unwrap().unwrap();
    assert_eq!(r, FrameSpan { start: 0, end: 5, consumed: 6 });
}

#[test]
fn lines_decode_strips_carriage_return() {
    let mut codec = Lines::new();
    let mut src = b"Hey\r\n".to_vec();
    let r = codec.decode(src.as_mut_slice()).unwrap().unwrap();
    assert_eq!(r, FrameSpan { start: 0, end: 3, consumed: 5 });
}

#[test]
fn lines_decode_incomplete() {
    let mut codec = Lines::new();
    let mut src = b"How are y".to_vec();
    assert_eq!(codec.decode(src.as_mut_slice()), Ok(None));
    // the scan resumes without rescanning and still finds a later newline
    let mut src2 = b"How are you\n".to_vec();
    let r = codec.decode(src2.as_mut_slice()).unwrap().unwrap();
    assert_eq!(r, FrameSpan { start: 0, end: 11, consumed: 12 });
}

#[test]
fn lines_encode_appends_crlf() {
    let mut codec = Lines::new();
    let mut dst = vec![0u8; 16];
    let n = codec.encode(&b"Line".to_vec(), &mut dst).unwrap();
    assert_eq!(n, 6);
    assert_eq!(&dst[..n], b"Line\r\n");
}

#[test]
fn lines_encode_buffer_too_small() {
    let mut codec = Lines::new();
    let mut dst = vec![0u8; 5];
    assert_eq!(codec.encode(&b"Line".to_vec(), &mut dst), Err(LinesEncodeError::BufferTooSmall));
}

#[test]
fn lines_round_trip_concrete() {
    let mut codec = Lines::new();
    let mut dst = vec![0u8; 32];
    let item = b"roundtrip".to_vec();
    let n = codec.encode(&item, &mut dst).unwrap();
    let mut encoded = dst[..n].to_vec();
    let r = codec.decode(encoded.as_mut_slice()).unwrap().unwrap();
    assert_eq!(r.consumed, n);
    assert_eq!(&encoded[r.start..r.end], item.as_slice());
}

#[test]
fn str_lines_rejects_invalid_utf8() {
    let mut codec = StrLines::new();
    let mut src = vec![0xff, 0xfe, b'\n'];
    assert_eq!(codec.decode(src.as_mut_slice()), Err(StrLinesDecodeError::Utf8));
}

#[test]
fn str_lines_accepts_utf8() {
    let mut codec = StrLines::new();
    let mut src = b"Hei\r\nmore".to_vec();
    let r = codec.decode(src.as_mut_slice()).unwrap().unwrap();
    assert_eq!(core::str::from_utf8(&src[r.start..r.end]).unwrap(), "Hei");
    assert_eq!(r.consumed, 5);
}

#[test]
fn owned_lines_copies_frame() {
    let mut codec = OwnedLines::<32>::new();
    let mut src = b"sup\nrest".to_vec();
    let (item, consumed) = codec.decode_owned(src.as_mut_slice()).unwrap().unwrap();
    assert_eq!(item, b"sup".to_vec());
    assert_eq!(consumed, 4);
}

#[test]
fn owned_lines_capacity_exceeded() {
    let mut codec = OwnedLines::<4>::new();
    let mut src = b"too long\n".to_vec();
    assert_eq!(
        codec.decode_owned(src.as_mut_slice()),
        Err(OwnedLinesDecodeError::BufferTooSmall)
    );
}

#[test]
fn string_lines_round_trip_concrete() {
    let mut codec = StringLines::<32>::new();
    let mut dst = vec![0u8; 32];
    let item = String::from("Hello, world!");
    let n = codec.encode(&item, &mut dst).unwrap();
    assert_eq!(&dst[..n], b"Hello, world!\r\n");
    let mut encoded = dst[..n].to_vec();
    let (back, consumed) = codec.decode_owned(encoded.as_mut_slice()).unwrap().unwrap();
    assert_eq!(back, item);
    assert_eq!(consumed, n);
}

#[test]
fn string_lines_capacity_exceeded() {
    let mut codec = StringLines::<4>::new();
    let mut src = b"too long\n".to_vec();
    assert_eq!(
        codec.decode_owned(src.as_mut_slice()),
        Err(StringLinesDecodeError::BufferTooSmall)
    );
}
