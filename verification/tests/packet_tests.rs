use framez::error::ReadError;
use framez::framed::{FramedReadOwned, FramedWrite};
use framez::mock::{ChunkReader, RecordingWriter};
use framez::packet::codec::PacketCodec;
use framez::packet::header::Header;
use framez::packet::payload::{Payload, PayloadFromSliceError};
use framez::packet::payload_content::{
    DeviceConfig, DeviceConfigAck, Heartbeat, HeartbeatAck, Init, InitAck, PayloadContent,
};
use framez::packet::payload_type::PayloadType;
use framez::packet::raw_packet::RawPacketFromSliceError;
use framez::packet::{Packet, PacketFromSliceError};

#[test]
fn payload_encode_decode() {
    let mut buf = vec![0; 100];

    let payload = Payload::new_raw(PayloadContent::DeviceConfig(DeviceConfig {
        sequence_number: 12,
        config: String::from("config"),
    }));

    let written = payload.write_to(&mut buf).expect("Must be ok");

    let (reconstructed, read) =
        Payload::payload_from_json_slice(PayloadType::DeviceConfig, &buf[..written])
            .expect("Must be ok");

    assert_eq!(written, read);
    assert_eq!(reconstructed, payload);
}

#[test]
fn packet_encode_decode() {
    let mut buf = vec![0; 100];

    let packet = Packet::new_raw(Payload::new_raw(PayloadContent::DeviceConfig(DeviceConfig {
        sequence_number: 12,
        config: String::from("config"),
    })));

    let written = packet.write_to(&mut buf).expect("Must be ok");

    let (reconstructed, read) = Packet::maybe_packet_from_prefix(&buf[..written])
        .expect("Must be ok")
        .expect("Must be some");

    assert_eq!(written, read);
    assert_eq!(reconstructed, packet);
}

#[test]
fn payload_serialized_form() {
    let mut buf = vec![0; 100];
    let payload = Payload::new_raw(PayloadContent::Heartbeat(Heartbeat { sequence_number: 7 }));
    let written = payload.write_to(&mut buf).expect("Must be ok");
    assert_eq!(&buf[..written], b"{\"sequence_number\":7}");

    let payload = Payload::new_raw(PayloadContent::Init(Init {
        sequence_number: 310,
        version: String::from("1.0.0"),
    }));
    let written = payload.write_to(&mut buf).expect("Must be ok");
    assert_eq!(&buf[..written], b"{\"sequence_number\":310,\"version\":\"1.0.0\"}");
}

fn example_packets() -> Vec<Packet> {
    vec![
        Packet::new(PayloadContent::Init(Init {
            sequence_number: 0,
            version: String::from("1.0.0"),
        })),
        Packet::new(PayloadContent::InitAck(InitAck {
            sequence_number: 0,
            version: String::from("1.0.0"),
        })),
        Packet::new(PayloadContent::Heartbeat(Heartbeat { sequence_number: 1 })),
        Packet::new(PayloadContent::HeartbeatAck(HeartbeatAck { sequence_number: 1 })),
        Packet::new(PayloadContent::DeviceConfig(DeviceConfig {
            sequence_number: 2,
            config: String::from("very-important-config"),
        })),
        Packet::new(PayloadContent::DeviceConfigAck(DeviceConfigAck { sequence_number: 2 })),
    ]
}

#[test]
fn codec_encode_decode() {
    let packets = example_packets();

    // encode everything onto one wire, in small pieces
    let mut wire: Vec<u8> = Vec::new();
    let mut write_buf = vec![0u8; 512];
    for packet in packets.iter() {
        let n = packet.write_to(&mut write_buf).expect("Must encode");
        wire.extend_from_slice(&write_buf[..n]);
    }
    let chunks: Vec<Vec<u8>> = wire.chunks(8).map(|c| c.to_vec()).collect();

    // decode the stream back
    let mut framer = FramedReadOwned::new(
        PacketCodec::new(),
        ChunkReader::new(chunks),
        vec![0u8; 512],
    );
    let mut index = 0;
    loop {
        match framer.next() {
            Some(Ok(packet)) => {
                assert_eq!(&packet, packets.get(index).expect("Must have packet"));
                index += 1;
            },
            Some(Err(err)) => panic!("Error {err:?}"),
            None => break,
        }
    }
    assert_eq!(index, packets.len());
}

#[test]
fn bit_flip_gives_checksum_error() {
    let packet = Packet::new(PayloadContent::Heartbeat(Heartbeat { sequence_number: 1 }));
    let mut buf = vec![0u8; 64];
    let n = packet.write_to(&mut buf).expect("Must encode");
    let mut corrupted = buf[..n].to_vec();
    // flip one bit in the payload area
    corrupted[10] ^= 0x01;
    let r = Packet::maybe_packet_from_prefix(&corrupted);
    assert_eq!(
        r,
        Err(PacketFromSliceError::RawPacket(RawPacketFromSliceError::Checksum))
    );
}

#[test]
fn corrupt_packet_in_stream_is_one_decode_error() {
    let packet = Packet::new(PayloadContent::Heartbeat(Heartbeat { sequence_number: 1 }));
    let mut buf = vec![0u8; 64];
    let n = packet.write_to(&mut buf).expect("Must encode");
    let mut wire = buf[..n].to_vec();
    wire[9] ^= 0x40;
    let mut framer = FramedReadOwned::new(
        PacketCodec::new(),
        ChunkReader::new(vec![wire]),
        vec![0u8; 64],
    );
    match framer.next() {
        Some(Err(ReadError::Decode(PacketFromSliceError::RawPacket(
            RawPacketFromSliceError::Checksum,
        )))) => {},
        other => panic!("unexpected outcome {other:?}"),
    }
}

#[test]
fn unknown_payload_type_is_rejected() {
    // a packet with a valid checksum but a type code outside the enumeration
    let payload = b"{\"sequence_number\":1}";
    let mut bytes = Vec::new();
    let len = 8 + payload.len();
    bytes.extend_from_slice(&[(len >> 8) as u8, len as u8, 0, 9, 0, 0, 0, 0]);
    bytes.extend_from_slice(payload);
    let checksum = crc32fast::hash(&bytes);
    bytes[4] = (checksum >> 24) as u8;
    bytes[5] = (checksum >> 16) as u8;
    bytes[6] = (checksum >> 8) as u8;
    bytes[7] = checksum as u8;
    let r = Packet::maybe_packet_from_prefix(&bytes);
    assert_eq!(r, Err(PacketFromSliceError::UnknownPayloadType));
}

#[test]
fn malformed_payload_is_rejected() {
    let payload = b"{\"sequence\":1}";
    let mut bytes = Vec::new();
    let len = 8 + payload.len();
    bytes.extend_from_slice(&[(len >> 8) as u8, len as u8, 0, 3, 0, 0, 0, 0]);
    bytes.extend_from_slice(payload);
    let checksum = crc32fast::hash(&bytes);
    bytes[4] = (checksum >> 24) as u8;
    bytes[5] = (checksum >> 16) as u8;
    bytes[6] = (checksum >> 8) as u8;
    bytes[7] = checksum as u8;
    let r = Packet::maybe_packet_from_prefix(&bytes);
    assert_eq!(
        r,
        Err(PacketFromSliceError::Payload(PayloadFromSliceError::Deserialize))
    );
}

#[test]
fn short_length_is_rejected() {
    // a header that claims a packet shorter than a header
    let bytes = [0u8, 4, 0, 3, 0, 0, 0, 0];
    let r = Packet::maybe_packet_from_prefix(&bytes);
    assert_eq!(
        r,
        Err(PacketFromSliceError::RawPacket(RawPacketFromSliceError::InvalidLength))
    );
}

#[test]
fn incomplete_packet_waits_for_more() {
    let packet = Packet::new(PayloadContent::Heartbeat(Heartbeat { sequence_number: 5 }));
    let mut buf = vec![0u8; 64];
    let n = packet.write_to(&mut buf).expect("Must encode");
    // fewer bytes than a header, then fewer than the packet claims
    assert_eq!(Packet::maybe_packet_from_prefix(&buf[..4]), Ok(None));
    assert_eq!(Packet::maybe_packet_from_prefix(&buf[..n - 1]), Ok(None));
}

#[test]
fn header_accessors() {
    let mut h = Header { packet_length: 0, raw_payload_type: 0, checksum: 0 };
    h.set_packet_length(20);
    h.set_raw_payload_type(3);
    h.set_checksum(77);
    assert_eq!(h.packet_length(), 20);
    assert_eq!(h.packet_length_usize(), 20);
    assert_eq!(h.raw_payload_type(), 3);
    assert_eq!(h.payload_type(), Some(PayloadType::Heartbeat));
    assert_eq!(h.payload_length(), 12);
    assert_eq!(h.checksum(), 77);
    h.clear_checksum();
    assert_eq!(h.checksum(), 0);
    assert_eq!(Header::size(), 8);
    h.make_ready_for_checksum(PayloadType::Init, 13);
    assert_eq!(h.packet_length(), 21);
    assert_eq!(h.raw_payload_type(), 1);
    assert_eq!(h.checksum(), 0);
}

#[test]
fn payload_type_codes() {
    assert!(matches!(PayloadType::from_u16(1), Some(PayloadType::Init)));
    assert!(matches!(PayloadType::from_u16(2), Some(PayloadType::InitAck)));
    assert!(matches!(PayloadType::from_u16(3), Some(PayloadType::Heartbeat)));
    assert!(matches!(PayloadType::from_u16(4), Some(PayloadType::HeartbeatAck)));
    assert!(matches!(PayloadType::from_u16(5), Some(PayloadType::DeviceConfig)));
    assert!(matches!(PayloadType::from_u16(6), Some(PayloadType::DeviceConfigAck)));
    assert!(PayloadType::from_u16(0).is_none());
    assert!(PayloadType::from_u16(7).is_none());
    assert_eq!(PayloadType::DeviceConfig.to_u16(), 5);
}

#[test]
fn packet_send_and_receive_through_engine() {
    let packets = example_packets();
    let mut writer = FramedWrite::new(PacketCodec::new(), RecordingWriter::new(), vec![0u8; 512]);
    for packet in packets.iter() {
        writer.send(packet).expect("Must send");
    }
    let (_, sink, _) = writer.into_parts();
    let wire = sink.written().clone();

    let mut framer = FramedReadOwned::new(
        PacketCodec::new(),
        ChunkReader::new(vec![wire]),
        vec![0u8; 512],
    );
    let mut collected = Vec::new();
    loop {
        match framer.next() {
            Some(Ok(packet)) => collected.push(packet),
            Some(Err(err)) => panic!("Error {err:?}"),
            None => break,
        }
    }
    assert_eq!(collected, packets);
}
