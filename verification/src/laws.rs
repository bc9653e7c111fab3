//! Laws of the built-in codecs: every encoded item decodes back to itself
//! consuming exactly its encoded length, a frame is cut off the front of a
//! stream no matter what follows it, and a whole stream of encoded items is
//! cut back into exactly those items.

use vstd::prelude::*;
use vstd::utf8::{decode_utf8, encode_utf8, encode_utf8_decode_utf8, encode_utf8_valid_utf8};

use crate::codec::bytes::{Bytes, OwnedBytes};
use crate::codec::delimiter::{
    delim_ends_at, delim_encoding, delim_frame, delim_frames, delim_wire, find_delim_end,
    lemma_find_delim_end_advance,
};
use crate::codec::lines::{
    lemma_find_newline_advance, line_encoding, line_frame, line_frames, lines_wire, Lines,
    LinesEncodeError, OwnedLines, StrLines, StringLines,
};
use crate::decode::{Decoder, OwnedDecoder};
use crate::encode::Encoder;
use crate::error::{ReadError, WriteError};
use crate::functions::{read_wf, read_wf_owned, send_ok, step_ok, step_owned_ok};
use crate::state::{ReadState, WriteState};
use crate::transport::{TransportRead, TransportWrite};
use crate::packet::header::{header_bytes, header_of, lemma_header_roundtrip, Header, HEADER_SIZE};
use crate::packet::payload::{
    dec_rep, digits_end, is_digit, json_close, json_close_quote, json_config_key, json_of,
    json_safe, json_seq_key, json_version_key, lemma_dec_rep, lemma_digits_end_advance,
    lemma_find_quote_advance, spec_encodable, spec_parse_u32, spec_payload_decode,
    spec_payload_encode, spec_string_tail,
};
use crate::packet::payload_content::SpecPayloadContent;
use crate::packet::payload_type::PayloadType;
use crate::packet::raw_packet::{spec_raw_packet_decode, zero_checksum};
use crate::packet::{packet_frames, packets_wire, spec_packet_decode, spec_packet_encode};

verus! {

/// Round trip of the raw bytes codec: the whole encoding comes back as one
/// frame, consuming exactly the encoded length.
pub proof fn lemma_bytes_round_trip(codec: Bytes, item: Seq<u8>, dst_len: int)
    requires
        item.len() <= dst_len,
    ensures
        codec.spec_encode(item, dst_len) == Ok::<Seq<u8>, crate::codec::bytes::BytesEncodeError>(
            item,
        ),
        codec.spec_decode(item) matches Ok(Some((s, e, n))) && s == 0 && e == item.len() && n
            == item.len() && item.subrange(s, e) == item,
{
    assert(item.subrange(0, item.len() as int) =~= item);
}

/// The line codec cuts the encoding of an item off the front of any stream:
/// the frame is the item and the consumed bytes are exactly its encoding.
pub proof fn lemma_line_frame_prefix(item: Seq<u8>, rest: Seq<u8>)
    requires
        forall|j: int| 0 <= j < item.len() ==> item[j] != 10u8,
    ensures
        line_frame(line_encoding(item) + rest) == Some(
            (0int, item.len() as int, item.len() as int + 2),
        ),
        (line_encoding(item) + rest).subrange(0, item.len() as int) == item,
{
    let src = line_encoding(item) + rest;
    let p = item.len() as int + 1;
    assert(src[p] == 10u8);
    assert(src[p - 1] == 13u8);
    assert(forall|j: int| 0 <= j < p ==> src[j] != 10u8);
    lemma_find_newline_advance(src, 0, p);
    assert(crate::codec::lines::find_newline(src, p) == Some(p));
    assert(src.subrange(0, item.len() as int) =~= item);
}

/// Round trip of the line codec: decoding an encoded line gives the line
/// back and consumes exactly the encoded length (the line itself must hold
/// no line feed).
pub proof fn lemma_lines_round_trip(item: Seq<u8>, dst_len: int)
    requires
        forall|j: int| 0 <= j < item.len() ==> item[j] != 10u8,
        item.len() + 2 <= dst_len,
    ensures
        ({
            let bytes = line_encoding(item);
            &&& line_frame(bytes) == Some((0int, item.len() as int, bytes.len() as int))
            &&& bytes.subrange(0, item.len() as int) == item
        }),
{
    lemma_line_frame_prefix(item, Seq::<u8>::empty());
    assert(line_encoding(item) + Seq::<u8>::empty() =~= line_encoding(item));
}

/// Framing completeness of the line codec: a stream holding the encodings of
/// a sequence of items, in order, is cut back into exactly those items.
pub proof fn lemma_lines_framing_complete(items: Seq<Seq<u8>>)
    requires
        forall|i: int, j: int| 0 <= i < items.len() && 0 <= j < items[i].len()
            ==> items[i][j] != 10u8,
    ensures
        line_frames(lines_wire(items)) == items,
    decreases items.len(),
{
    if items.len() == 0 {
        assert(lines_wire(items) =~= Seq::<u8>::empty());
        assert(line_frames(lines_wire(items)) =~= items);
    } else {
        let head = items[0];
        let tail = items.drop_first();
        let w = lines_wire(items);
        assert(w == line_encoding(head) + lines_wire(tail));
        lemma_line_frame_prefix(head, lines_wire(tail));
        assert(w.subrange(0, head.len() as int) == head);
        assert(w.skip(head.len() + 2int) =~= lines_wire(tail));
        assert(forall|i: int, j: int| 0 <= i < tail.len() && 0 <= j < tail[i].len()
            ==> tail[i][j] != 10u8);
        lemma_lines_framing_complete(tail);
        assert(line_frames(w) =~= items);
    }
}

/// The delimiter codec cuts the encoding of an item off the front of any
/// stream: the frame is the item and the consumed bytes are exactly its
/// encoding (the item must not contain the delimiter, and the delimiter must
/// not be empty).
pub proof fn lemma_delim_frame_prefix(item: Seq<u8>, delim: Seq<u8>, rest: Seq<u8>)
    requires
        delim.len() >= 1,
        forall|p: int| !delim_ends_at(item + delim + rest, delim, p) || p >= item.len()
            + delim.len() - 1,
    ensures
        delim_frame(delim_encoding(item, delim) + rest, delim) == Some(
            (0int, item.len() as int, item.len() as int + delim.len() as int),
        ),
        (delim_encoding(item, delim) + rest).subrange(0, item.len() as int) == item,
{
    let src = delim_encoding(item, delim) + rest;
    let p = item.len() + delim.len() - 1;
    assert(src =~= item + delim + rest);
    assert(delim_ends_at(src, delim, p)) by {
        assert(forall|j: int| 0 <= j < delim.len() ==> src[p + 1 - delim.len() + j] == delim[j]);
    }
    lemma_find_delim_end_advance(src, delim, 0, p);
    assert(find_delim_end(src, delim, p) == Some(p));
    assert(src.subrange(0, item.len() as int) =~= item);
}

/// Round trip of the delimiter codec: decoding an encoded item gives the
/// item back and consumes exactly the encoded length (the item together with
/// the delimiter may hold no delimiter occurrence before its end).
pub proof fn lemma_delimiter_round_trip(item: Seq<u8>, delim: Seq<u8>, dst_len: int)
    requires
        delim.len() >= 1,
        item.len() + delim.len() <= dst_len,
        forall|p: int| !delim_ends_at(item + delim, delim, p) || p >= item.len() + delim.len()
            - 1,
    ensures
        ({
            let bytes = delim_encoding(item, delim);
            &&& delim_frame(bytes, delim) == Some(
                (0int, item.len() as int, bytes.len() as int),
            )
            &&& bytes.subrange(0, item.len() as int) == item
        }),
{
    assert(item + delim + Seq::<u8>::empty() =~= item + delim);
    assert forall|p: int| !delim_ends_at(item + delim + Seq::<u8>::empty(), delim, p) || p
        >= item.len() + delim.len() - 1 by {
        if delim_ends_at(item + delim + Seq::<u8>::empty(), delim, p) {
            assert(delim_ends_at(item + delim, delim, p));
        }
    }
    lemma_delim_frame_prefix(item, delim, Seq::<u8>::empty());
    assert(delim_encoding(item, delim) + Seq::<u8>::empty() =~= delim_encoding(item, delim));
}

/// The opening key and the sequence number of a serialized payload parse
/// back exactly.
proof fn lemma_parse_number_at(src: Seq<u8>, sn: u32, tail: Seq<u8>)
    requires
        src == json_seq_key() + dec_rep(sn as int) + tail,
        tail.len() >= 1,
        !is_digit(tail[0]),
    ensures
        src.len() >= json_seq_key().len() && src.subrange(0, json_seq_key().len() as int)
            == json_seq_key(),
        spec_parse_u32(src, json_seq_key().len() as int) == Some(
            (sn, json_seq_key().len() as int + dec_rep(sn as int).len() as int),
        ),
{
    let klen = json_seq_key().len() as int;
    let d = dec_rep(sn as int);
    lemma_dec_rep(sn as int);
    assert(src.subrange(0, klen) =~= json_seq_key());
    assert(forall|j: int| klen <= j < klen + d.len() ==> is_digit(#[trigger] src[j]));
    lemma_digits_end_advance(src, klen, klen + d.len());
    assert(!is_digit(src[klen + d.len()]));
    assert(digits_end(src, klen + d.len()) == klen + d.len());
    assert(digits_end(src, klen) == klen + d.len());
    assert(src.subrange(klen, klen + d.len()) =~= d);
    if src[klen] == 48 {
        assert(d[0] == 48);
        assert(sn == 0);
        assert(d.len() == 1);
    }
}

/// The text field and the closing of a string-variant payload parse back
/// exactly.
proof fn lemma_parse_string_tail(src: Seq<u8>, m: int, text: Seq<char>)
    requires
        0 <= m,
        json_safe(encode_utf8(text)),
        src.len() == m + encode_utf8(text).len() + 2,
        src.subrange(m, src.len() as int) == encode_utf8(text) + json_close_quote(),
    ensures
        spec_string_tail(src, m) matches Ok(bytes) && decode_utf8(bytes) == text,
{
    let sb = encode_utf8(text);
    let q = m + sb.len();
    assert forall|j: int| m <= j < q implies src[j] != 0x22 by {
        assert(src[j] == (encode_utf8(text) + json_close_quote())[j - m]);
        assert(src[j] == sb[j - m]);
    }
    assert(src[q] == (sb + json_close_quote())[q - m]);
    assert(src[q] == 0x22);
    assert(src[q + 1] == (sb + json_close_quote())[q + 1 - m]);
    assert(src[q + 1] == 0x7d);
    lemma_find_quote_advance(src, m, q);
    assert(crate::packet::payload::find_quote(src, q) == Some(q));
    assert(src.subrange(m, q) =~= sb);
    encode_utf8_valid_utf8(text);
    encode_utf8_decode_utf8(text);
}

/// Round trip of the payload serialization: a serialized payload
/// deserializes back to itself under its own payload type.
#[verifier::rlimit(60)]
#[verifier::spinoff_prover]
pub proof fn lemma_payload_round_trip(c: SpecPayloadContent)
    requires
        spec_encodable(c),
    ensures
        spec_payload_decode(c.spec_payload_type(), json_of(c)) == Ok::<
            SpecPayloadContent,
            crate::packet::payload::PayloadFromSliceError,
        >(c),
{
    let src = json_of(c);
    let klen = json_seq_key().len() as int;
    match c {
        SpecPayloadContent::Heartbeat { sequence_number } => {
            let d = dec_rep(sequence_number as int);
            assert(src =~= json_seq_key() + d + json_close());
            lemma_parse_number_at(src, sequence_number, json_close());
            assert(src[klen + d.len()] == json_close()[0]);
        },
        SpecPayloadContent::HeartbeatAck { sequence_number } => {
            let d = dec_rep(sequence_number as int);
            assert(src =~= json_seq_key() + d + json_close());
            lemma_parse_number_at(src, sequence_number, json_close());
            assert(src[klen + d.len()] == json_close()[0]);
        },
        SpecPayloadContent::DeviceConfigAck { sequence_number } => {
            let d = dec_rep(sequence_number as int);
            assert(src =~= json_seq_key() + d + json_close());
            lemma_parse_number_at(src, sequence_number, json_close());
            assert(src[klen + d.len()] == json_close()[0]);
        },
        SpecPayloadContent::Init { sequence_number, version } => {
            let d = dec_rep(sequence_number as int);
            let tail = json_version_key() + encode_utf8(version) + json_close_quote();
            assert(src =~= json_seq_key() + d + tail);
            lemma_parse_number_at(src, sequence_number, tail);
            let j = klen + d.len();
            assert(src.subrange(j, j + json_version_key().len() as int) =~= json_version_key());
            let m = j + json_version_key().len() as int;
            assert(src.subrange(m, src.len() as int) =~= encode_utf8(version)
                + json_close_quote());
            lemma_parse_string_tail(src, m, version);
        },
        SpecPayloadContent::InitAck { sequence_number, version } => {
            let d = dec_rep(sequence_number as int);
            let tail = json_version_key() + encode_utf8(version) + json_close_quote();
            assert(src =~= json_seq_key() + d + tail);
            lemma_parse_number_at(src, sequence_number, tail);
            let j = klen + d.len();
            assert(src.subrange(j, j + json_version_key().len() as int) =~= json_version_key());
            let m = j + json_version_key().len() as int;
            assert(src.subrange(m, src.len() as int) =~= encode_utf8(version)
                + json_close_quote());
            lemma_parse_string_tail(src, m, version);
        },
        SpecPayloadContent::DeviceConfig { sequence_number, config } => {
            let d = dec_rep(sequence_number as int);
            let tail = json_config_key() + encode_utf8(config) + json_close_quote();
            assert(src =~= json_seq_key() + d + tail);
            lemma_parse_number_at(src, sequence_number, tail);
            let j = klen + d.len();
            assert(src.subrange(j, j + json_config_key().len() as int) =~= json_config_key());
            let m = j + json_config_key().len() as int;
            assert(src.subrange(m, src.len() as int) =~= encode_utf8(config)
                + json_close_quote());
            lemma_parse_string_tail(src, m, config);
        },
    }
}

/// The packet codec cuts an encoded packet off the front of any stream: the
/// decoded content is the encoded one and the consumed bytes are exactly the
/// encoding.
#[verifier::spinoff_prover]
pub proof fn lemma_packet_frame_prefix(c: SpecPayloadContent, dst_len: int, rest: Seq<u8>)
    requires
        spec_packet_encode(c, dst_len) is Ok,
    ensures
        ({
            let bytes = spec_packet_encode(c, dst_len)->Ok_0;
            spec_packet_decode(bytes + rest) == Ok::<
                Option<(SpecPayloadContent, int)>,
                crate::packet::PacketFromSliceError,
            >(Some((c, bytes.len() as int)))
        }),
{
    let pb = json_of(c);
    let h0 = Header {
        packet_length: (HEADER_SIZE + pb.len()) as u16,
        raw_payload_type: c.spec_payload_type().spec_to_u16(),
        checksum: 0,
    };
    let h = Header { checksum: crate::packet::header::crc32_of(header_bytes(h0) + pb), ..h0 };
    let bytes = header_bytes(h) + pb;
    assert(spec_payload_encode(c, dst_len - HEADER_SIZE) == Ok::<
        Seq<u8>,
        crate::packet::payload::PayloadWriteError,
    >(pb));
    assert(spec_packet_encode(c, dst_len) == Ok::<Seq<u8>, crate::packet::PacketWriteError>(
        bytes,
    ));
    let src = bytes + rest;
    lemma_header_roundtrip(h);
    lemma_header_roundtrip(h0);
    assert(forall|i: int| 0 <= i < HEADER_SIZE ==> src[i] == header_bytes(h)[i]);
    assert(header_of(src) == header_of(header_bytes(h)));
    assert(header_of(src) == h);
    let plen = h.packet_length as int;
    assert(plen == HEADER_SIZE + pb.len());
    assert(src.len() >= plen);
    assert(src.subrange(0, plen) =~= bytes);
    assert(zero_checksum(bytes) =~= header_bytes(h0) + pb);
    assert(h.checksum == crate::packet::header::crc32_of(zero_checksum(src.subrange(0, plen))));
    assert(src.subrange(HEADER_SIZE as int, plen) =~= pb);
    assert(spec_raw_packet_decode(src) == Ok::<
        Option<(Header, Seq<u8>)>,
        crate::packet::raw_packet::RawPacketFromSliceError,
    >(Some((h, pb))));
    assert(PayloadType::spec_from_u16(c.spec_payload_type().spec_to_u16())
        == Some(c.spec_payload_type()));
    lemma_payload_round_trip(c);
}

/// Round trip of the packet codec: a packet decoded from its own encoding is
/// the packet, and exactly the encoded bytes are consumed.
pub proof fn lemma_packet_round_trip(c: SpecPayloadContent, dst_len: int)
    requires
        spec_packet_encode(c, dst_len) is Ok,
    ensures
        ({
            let bytes = spec_packet_encode(c, dst_len)->Ok_0;
            spec_packet_decode(bytes) == Ok::<
                Option<(SpecPayloadContent, int)>,
                crate::packet::PacketFromSliceError,
            >(Some((c, bytes.len() as int)))
        }),
{
    lemma_packet_frame_prefix(c, dst_len, Seq::<u8>::empty());
    let bytes = spec_packet_encode(c, dst_len)->Ok_0;
    assert(bytes + Seq::<u8>::empty() =~= bytes);
}

/// Framing completeness of the delimiter codec: a stream holding the
/// encodings of a sequence of items, in order, is cut back into exactly
/// those items (no item may hold an early delimiter occurrence, not even one
/// leaking into its trailing delimiter).
pub proof fn lemma_delimiter_framing_complete(items: Seq<Seq<u8>>, delim: Seq<u8>)
    requires
        delim.len() >= 1,
        forall|i: int, p: int| 0 <= i < items.len() ==> !(#[trigger] delim_ends_at(
            items[i] + delim,
            delim,
            p,
        )) || p >= items[i].len() + delim.len() - 1,
    ensures
        delim_frames(delim_wire(items, delim), delim) == items,
    decreases items.len(),
{
    if items.len() == 0 {
        assert(delim_wire(items, delim) =~= Seq::<u8>::empty());
        assert(delim_frames(delim_wire(items, delim), delim) =~= items);
    } else {
        let head = items[0];
        let tail = items.drop_first();
        let w = delim_wire(items, delim);
        let rest = delim_wire(tail, delim);
        assert(w == delim_encoding(head, delim) + rest);
        assert forall|p: int| !delim_ends_at(head + delim + rest, delim, p) || p >= head.len()
            + delim.len() - 1 by {
            if delim_ends_at(head + delim + rest, delim, p) && p < head.len() + delim.len() - 1 {
                assert(head + delim == (head + delim + rest).subrange(
                    0,
                    head.len() + delim.len() as int,
                ));
                assert forall|j: int| 0 <= j < delim.len() implies (head + delim)[p + 1
                    - delim.len() + j] == delim[j] by {
                    assert((head + delim + rest)[p + 1 - delim.len() + j] == delim[j]);
                }
                assert(delim_ends_at(head + delim, delim, p));
            }
        }
        lemma_delim_frame_prefix(head, delim, rest);
        assert(w.subrange(0, head.len() as int) == head);
        assert(w.skip(head.len() as int + delim.len() as int) =~= rest);
        assert(forall|i: int, p: int| 0 <= i < tail.len() ==> !(#[trigger] delim_ends_at(
            tail[i] + delim,
            delim,
            p,
        )) || p >= tail[i].len() + delim.len() - 1);
        lemma_delimiter_framing_complete(tail, delim);
        assert(delim_frames(w, delim) =~= items);
    }
}

/// Framing completeness of the packet codec: a stream holding the encodings
/// of a sequence of payload contents, in order, is cut back into exactly
/// those contents.
#[verifier::rlimit(60)]
#[verifier::spinoff_prover]
pub proof fn lemma_packets_framing_complete(items: Seq<SpecPayloadContent>, dst_len: int)
    requires
        forall|i: int| 0 <= i < items.len() ==> #[trigger] spec_packet_encode(
            items[i],
            dst_len,
        ) is Ok,
    ensures
        packet_frames(packets_wire(items, dst_len)) == items,
    decreases items.len(),
{
    if items.len() == 0 {
        assert(packets_wire(items, dst_len) =~= Seq::<u8>::empty());
        assert(spec_packet_decode(Seq::<u8>::empty()) == Ok::<
            Option<(SpecPayloadContent, int)>,
            crate::packet::PacketFromSliceError,
        >(None));
        assert(packet_frames(packets_wire(items, dst_len)) =~= items);
    } else {
        let head = items[0];
        let tail = items.drop_first();
        let w = packets_wire(items, dst_len);
        let bytes = spec_packet_encode(head, dst_len)->Ok_0;
        let rest = packets_wire(tail, dst_len);
        assert(w == bytes + rest);
        lemma_packet_frame_prefix(head, dst_len, rest);
        assert(w.skip(bytes.len() as int) =~= rest);
        crate::packet::raw_packet::lemma_spec_raw_packet_decode_wf(w);
        assert(bytes.len() >= HEADER_SIZE);
        assert(forall|i: int| 0 <= i < tail.len() ==> #[trigger] spec_packet_encode(
            tail[i],
            dst_len,
        ) is Ok);
        lemma_packets_framing_complete(tail, dst_len);
        assert(packet_frames(w) =~= items);
    }
}

/// Round trip of the owned bytes codec: the whole encoding comes back as the
/// item, consuming exactly the encoded length.
pub proof fn lemma_owned_bytes_round_trip<const N: usize>(
    codec: OwnedBytes<N>,
    item: Seq<u8>,
    dst_len: int,
)
    requires
        item.len() <= dst_len,
        item.len() <= N,
    ensures
        codec.spec_encode(item, dst_len) == Ok::<Seq<u8>, crate::codec::bytes::BytesEncodeError>(
            item,
        ),
        codec.spec_decode_owned(item) == Ok::<
            Option<(Seq<u8>, int)>,
            crate::codec::bytes::OwnedBytesDecodeError,
        >(Some((item, item.len() as int))),
{
}

/// Round trip of the text line codec: the encoded line frames back as the
/// item's bytes, consuming exactly the encoded length.
pub proof fn lemma_str_lines_round_trip(codec: StrLines, item: Seq<char>, dst_len: int)
    requires
        forall|j: int| 0 <= j < encode_utf8(item).len() ==> encode_utf8(item)[j] != 10u8,
        encode_utf8(item).len() + 2 <= dst_len,
    ensures
        ({
            let bytes = line_encoding(encode_utf8(item));
            &&& codec.spec_encode(item, dst_len) == Ok::<
                Seq<u8>,
                crate::codec::lines::LinesEncodeError,
            >(bytes)
            &&& codec.spec_decode(bytes) == Ok::<
                Option<(int, int, int)>,
                crate::codec::lines::StrLinesDecodeError,
            >(Some((0int, encode_utf8(item).len() as int, bytes.len() as int)))
            &&& bytes.subrange(0, encode_utf8(item).len() as int) == encode_utf8(item)
        }),
{
    lemma_lines_round_trip(encode_utf8(item), dst_len);
    encode_utf8_valid_utf8(item);
}

/// Round trip of the owned line codec: the encoded line comes back as the
/// item, consuming exactly the encoded length.
pub proof fn lemma_owned_lines_round_trip<const N: usize>(
    codec: OwnedLines<N>,
    item: Seq<u8>,
    dst_len: int,
)
    requires
        forall|j: int| 0 <= j < item.len() ==> item[j] != 10u8,
        item.len() + 2 <= dst_len,
        item.len() <= N,
    ensures
        ({
            let bytes = line_encoding(item);
            &&& codec.spec_encode(item, dst_len) == Ok::<
                Seq<u8>,
                crate::codec::lines::LinesEncodeError,
            >(bytes)
            &&& codec.spec_decode_owned(bytes) == Ok::<
                Option<(Seq<u8>, int)>,
                crate::codec::lines::OwnedLinesDecodeError,
            >(Some((item, bytes.len() as int)))
        }),
{
    lemma_lines_round_trip(item, dst_len);
}

/// Round trip of the owned text line codec: the encoded line comes back as
/// the text, consuming exactly the encoded length.
pub proof fn lemma_string_lines_round_trip<const N: usize>(
    codec: StringLines<N>,
    item: Seq<char>,
    dst_len: int,
)
    requires
        forall|j: int| 0 <= j < encode_utf8(item).len() ==> encode_utf8(item)[j] != 10u8,
        encode_utf8(item).len() + 2 <= dst_len,
        encode_utf8(item).len() <= N,
    ensures
        ({
            let bytes = line_encoding(encode_utf8(item));
            &&& codec.spec_encode(item, dst_len) == Ok::<
                Seq<u8>,
                crate::codec::lines::LinesEncodeError,
            >(bytes)
            &&& codec.spec_decode_owned(bytes) == Ok::<
                Option<(Seq<char>, int)>,
                crate::codec::lines::StringLinesDecodeError,
            >(Some((item, bytes.len() as int)))
        }),
{
    lemma_lines_round_trip(encode_utf8(item), dst_len);
    encode_utf8_valid_utf8(item);
    encode_utf8_decode_utf8(item);
}

/// Invariant preservation: whatever one read step does — shift, decode,
/// refuse, or read — the session bookkeeping invariant holds afterwards, end
/// of stream is never forgotten, and the buffer keeps its size.
pub proof fn lemma_step_preserves_invariants<C: Decoder, R: TransportRead>(
    pre_state: ReadState,
    pre_codec: C,
    pre_read: R,
    post_state: ReadState,
    post_codec: C,
    post_read: R,
    r: Option<Result<Option<(usize, usize)>, ReadError<R::Error, C::Error>>>,
)
    requires
        read_wf(&pre_state, &pre_codec),
        step_ok(pre_state, pre_codec, pre_read, post_state, post_codec, post_read, r),
    ensures
        post_state.wf(),
        pre_state.eof ==> post_state.eof,
        post_state.buffer.len() == pre_state.buffer.len(),
{
    if !pre_state.shift && pre_state.is_framable {
        pre_codec.lemma_spec_decode_wf(pre_state.region());
    }
}

/// [`lemma_step_preserves_invariants`] for a step over an owned decoder.
pub proof fn lemma_step_owned_preserves_invariants<C: OwnedDecoder, R: TransportRead>(
    pre_state: ReadState,
    pre_codec: C,
    pre_read: R,
    post_state: ReadState,
    post_codec: C,
    post_read: R,
    r: Option<Result<Option<C::Item>, ReadError<R::Error, C::Error>>>,
)
    requires
        read_wf_owned(&pre_state, &pre_codec),
        step_owned_ok(pre_state, pre_codec, pre_read, post_state, post_codec, post_read, r),
    ensures
        post_state.wf(),
        pre_state.eof ==> post_state.eof,
        post_state.buffer.len() == pre_state.buffer.len(),
{
    if !pre_state.shift && pre_state.is_framable {
        pre_codec.lemma_spec_decode_owned_wf(pre_state.region());
    }
}

/// What one successful line send puts on the wire: for a scratch buffer the
/// line fits, the sink accepts exactly the item followed by carriage return
/// and line feed, and has flushed through all of it.
pub proof fn lemma_line_send_wire<W: TransportWrite>(
    pre_state: WriteState,
    codec: Lines,
    pre_write: W,
    post_state: WriteState,
    post_write: W,
    item: Seq<u8>,
    r: Result<(), WriteError<W::Error, LinesEncodeError>>,
)
    requires
        item.len() + 2 <= pre_state.buffer.len(),
        send_ok::<Vec<u8>, Lines, W>(pre_state, codec, pre_write, post_state, post_write, item, r),
        r is Ok,
    ensures
        post_write.accepted() == pre_write.accepted() + line_encoding(item),
        post_write.flushed() == post_write.accepted(),
        post_state.buffer@.subrange(0, item.len() as int + 2) == line_encoding(item),
{
}

} // verus!
