use voxoxide::packet::{
    create_rtp_packet, parse_packet, round_trip, serialize_packet, MediaPacket, PacketError,
    PacketHeader,
};

fn plain(sequence: u16, timestamp: u32, ssrc: u32, payload: &[u8]) -> Vec<u8> {
    let mut bytes = vec![0x80, 111];
    bytes.extend(sequence.to_be_bytes());
    bytes.extend(timestamp.to_be_bytes());
    bytes.extend(ssrc.to_be_bytes());
    bytes.extend(payload);
    bytes
}

#[test]
fn parses_a_plain_packet() {
    let bytes = plain(0x1234, 0xDEADBEEF, 0x0A0B0C0D, &[1, 2, 3, 4, 5]);
    let packet = parse_packet(&bytes).unwrap();
    assert_eq!(
        packet.header,
        PacketHeader { payload_type: 111, sequence: 0x1234, timestamp: 0xDEADBEEF, ssrc: 0x0A0B0C0D }
    );
    assert_eq!(packet.payload, vec![1, 2, 3, 4, 5]);
}

#[test]
fn parses_a_packet_without_payload() {
    let bytes = plain(7, 8, 9, &[]);
    let packet = parse_packet(&bytes).unwrap();
    assert_eq!(packet.header.sequence, 7);
    assert_eq!(packet.header.timestamp, 8);
    assert_eq!(packet.header.ssrc, 9);
    assert!(packet.payload.is_empty());
}

#[test]
fn marker_bit_is_not_part_of_the_payload_type() {
    let mut bytes = plain(1, 2, 3, &[9]);
    bytes[1] = 0x80 | 96;
    let packet = parse_packet(&bytes).unwrap();
    assert_eq!(packet.header.payload_type, 96);
}

#[test]
fn short_datagram_is_malformed() {
    assert_eq!(parse_packet(&[]).err(), Some(PacketError::MalformedPacket));
    assert_eq!(parse_packet(&[0x80; 11]).err(), Some(PacketError::MalformedPacket));
    let bytes = plain(1, 2, 3, &[]);
    assert_eq!(parse_packet(&bytes[..11]).err(), Some(PacketError::MalformedPacket));
}

#[test]
fn wrong_version_is_malformed() {
    for first in [0x00u8, 0x40, 0xC0] {
        let mut bytes = plain(1, 2, 3, &[4, 5]);
        bytes[0] = first;
        assert_eq!(parse_packet(&bytes).err(), Some(PacketError::MalformedPacket));
    }
}

#[test]
fn padding_is_stripped_from_the_payload() {
    let mut bytes = plain(1, 2, 3, &[10, 11, 12, 0, 0, 3]);
    bytes[0] = 0xA0;
    let packet = parse_packet(&bytes).unwrap();
    assert_eq!(packet.payload, vec![10, 11, 12]);
    assert_eq!(packet.header.sequence, 1);
}

#[test]
fn bad_padding_is_malformed() {
    let mut bytes = plain(1, 2, 3, &[10, 11, 0]);
    bytes[0] = 0xA0;
    assert_eq!(parse_packet(&bytes).err(), Some(PacketError::MalformedPacket));
    let mut bytes = plain(1, 2, 3, &[10, 11, 9]);
    bytes[0] = 0xA0;
    assert_eq!(parse_packet(&bytes).err(), Some(PacketError::MalformedPacket));
}

#[test]
fn truncated_csrc_list_is_malformed() {
    let mut bytes = plain(1, 2, 3, &[1, 2]);
    bytes[0] = 0x81;
    assert_eq!(parse_packet(&bytes).err(), Some(PacketError::MalformedPacket));
}

#[test]
fn csrc_list_is_skipped() {
    let mut bytes = plain(1, 2, 3, &[0, 0, 0, 7, 42, 43]);
    bytes[0] = 0x81;
    let packet = parse_packet(&bytes).unwrap();
    assert_eq!(packet.payload, vec![42, 43]);
    assert_eq!(packet.header.ssrc, 3);
}

#[test]
fn creates_the_client_audio_packet() {
    let packet = create_rtp_packet(5, 1200, 0xA, vec![1, 2, 3]);
    assert_eq!(
        packet.header,
        PacketHeader { payload_type: 111, sequence: 5, timestamp: 1200, ssrc: 0xA }
    );
    assert_eq!(packet.payload, vec![1, 2, 3]);
}

#[test]
fn serializes_header_then_payload() {
    let packet = create_rtp_packet(0x0102, 0x03040506, 0x0708090A, vec![0xAA, 0xBB]);
    let wire = serialize_packet(&packet).unwrap();
    assert_eq!(
        wire,
        vec![0x80, 111, 0x01, 0x02, 0x03, 0x04, 0x05, 0x06, 0x07, 0x08, 0x09, 0x0A, 0xAA, 0xBB]
    );
}

#[test]
fn serialized_packet_parses_back() {
    let packet = MediaPacket {
        header: PacketHeader { payload_type: 96, sequence: 65535, timestamp: u32::MAX, ssrc: 0 },
        payload: vec![9; 40],
    };
    let back = round_trip(&packet).unwrap();
    assert_eq!(back.header, packet.header);
    assert_eq!(back.payload, packet.payload);
    let wire = serialize_packet(&packet).unwrap();
    assert_eq!(wire.len(), 52);
    let parsed = parse_packet(&wire).unwrap();
    assert_eq!(parsed.header, packet.header);
    assert_eq!(parsed.payload, packet.payload);
}
