//! Media packets on the wire: a fixed RTP header and an opaque compressed
//! payload. Parsing and serialising are done by `rvoip_rtp_core`.

use vstd::prelude::*;

verus! {

/// Length of the fixed part of the header.
pub const MIN_HEADER_LEN: usize = 12;

/// Payload type that this system's clients put on their audio packets.
pub const AUDIO_PAYLOAD_TYPE: u8 = 111;

/// The header fields that the session core reads.
#[derive(Clone, Copy, Debug, PartialEq, Eq, Structural)]
pub struct PacketHeader {
    /// Payload type, 7 bits.
    pub payload_type: u8,
    /// Sequence number; wraps at 2^16.
    pub sequence: u16,
    /// Sample counter of the sender; wraps at 2^32.
    pub timestamp: u32,
    /// Synchronisation source: tags one media stream inside a session.
    pub ssrc: u32,
}

/// One media packet: header and compressed payload.
#[derive(Clone, Debug)]
pub struct MediaPacket {
    pub header: PacketHeader,
    pub payload: Vec<u8>,
}

/// A media packet as a mathematical value.
pub struct MediaPacketView {
    pub header: PacketHeader,
    pub payload: Seq<u8>,
}

impl View for MediaPacket {
    type V = MediaPacketView;

    open spec fn view(&self) -> MediaPacketView {
        MediaPacketView { header: self.header, payload: self.payload@ }
    }
}

/// Why a datagram is not a media packet.
#[derive(Clone, Copy, Debug, PartialEq, Eq, Structural)]
pub enum PacketError {
    /// Too short for the fixed header, or the header breaks the wire format.
    MalformedPacket,
}

/// Big-endian value of two bytes.
pub open spec fn be16(hi: u8, lo: u8) -> int {
    hi as int * 256 + lo as int
}

/// Big-endian value of four bytes.
pub open spec fn be32(b0: u8, b1: u8, b2: u8, b3: u8) -> int {
    b0 as int * 16777216 + b1 as int * 65536 + b2 as int * 256 + b3 as int
}

/// The header fields as they stand in the first twelve bytes of a datagram:
/// payload type in the low seven bits of the second byte, then sequence
/// number, timestamp and SSRC in network byte order.
pub open spec fn header_fields(bytes: Seq<u8>) -> PacketHeader
    recommends
        bytes.len() >= 12,
{
    PacketHeader {
        payload_type: (bytes[1] % 128) as u8,
        sequence: be16(bytes[2], bytes[3]) as u16,
        timestamp: be32(bytes[4], bytes[5], bytes[6], bytes[7]) as u32,
        ssrc: be32(bytes[8], bytes[9], bytes[10], bytes[11]) as u32,
    }
}

/// The two version bits at the top of the first byte.
pub open spec fn version_bits(bytes: Seq<u8>) -> int
    recommends
        bytes.len() >= 1,
{
    bytes[0] as int / 64
}

/// A datagram with the plainest header: version 2, no padding, no extension,
/// no contributing sources.
pub open spec fn is_plain(bytes: Seq<u8>) -> bool {
    bytes.len() >= 12 && bytes[0] == 0x80
}

/// The twelve header bytes that stand before the payload of a packet sent
/// without padding, extension, contributing sources or marker.
pub open spec fn plain_header_bytes(h: PacketHeader) -> Seq<u8> {
    seq![
        0x80u8,
        (h.payload_type % 128) as u8,
        (h.sequence / 256) as u8,
        (h.sequence % 256) as u8,
        (h.timestamp / 16777216) as u8,
        (h.timestamp / 65536 % 256) as u8,
        (h.timestamp / 256 % 256) as u8,
        (h.timestamp % 256) as u8,
        (h.ssrc / 16777216) as u8,
        (h.ssrc / 65536 % 256) as u8,
        (h.ssrc / 256 % 256) as u8,
        (h.ssrc % 256) as u8,
    ]
}

/// Wire form of a packet sent without padding, extension, contributing
/// sources or marker.
pub open spec fn plain_wire(p: MediaPacketView) -> Seq<u8> {
    plain_header_bytes(p.header) + p.payload
}

/// What `rvoip_rtp_core::RtpPacket::parse` makes of a datagram: the header
/// fields and the payload, or nothing where it refuses the datagram.
pub uninterp spec fn rtp_parse(bytes: Seq<u8>) -> Option<MediaPacketView>;

#[verifier::external_type_specification]
#[verifier::external_body]
pub struct ExRtpError(rvoip_rtp_core::Error);

/// Calls `rvoip_rtp_core::RtpPacket::parse` and copies payload type, sequence
/// number, timestamp, SSRC and payload out of what it returns.
///
/// Trusted: the outcome is the one named `rtp_parse`. A datagram under twelve
/// bytes, or one whose version bits are not 2, is refused. Of an accepted
/// datagram the four header fields are those of its first twelve bytes, and
/// with the plainest first byte (0x80) the datagram is accepted and the
/// payload is everything after those twelve bytes.
#[verifier::external_body]
fn rtp_parse_call(bytes: &[u8]) -> (r: Result<MediaPacket, rvoip_rtp_core::Error>)
    ensures
        r matches Ok(p) ==> rtp_parse(bytes@) == Some(p@),
        r is Err ==> rtp_parse(bytes@) is None,
        bytes@.len() < 12 ==> r is Err,
        bytes@.len() >= 12 && version_bits(bytes@) != 2 ==> r is Err,
        r matches Ok(p) ==> p.header == header_fields(bytes@),
        is_plain(bytes@) ==> r is Ok,
        r matches Ok(p) ==> (is_plain(bytes@) ==> p.payload@ == bytes@.skip(12)),
{
    let parsed = rvoip_rtp_core::RtpPacket::parse(bytes)?;
    Ok(
        MediaPacket {
            header: PacketHeader {
                payload_type: parsed.header.payload_type,
                sequence: parsed.header.sequence_number,
                timestamp: parsed.header.timestamp,
                ssrc: parsed.header.ssrc,
            },
            payload: parsed.payload.to_vec(),
        },
    )
}

/// Calls `rvoip_rtp_core::RtpPacket::serialize` on a packet built by
/// `RtpHeader::new` and `RtpPacket::new` from the given fields.
///
/// Trusted: such a packet has version 2 and neither padding, extension,
/// contributing sources nor marker, so serialising succeeds and gives the
/// twelve plain header bytes followed by the payload.
#[verifier::external_body]
fn rtp_serialize_call(header: PacketHeader, payload: &[u8]) -> (r: Result<
    Vec<u8>,
    rvoip_rtp_core::Error,
>)
    ensures
        r is Ok,
        r matches Ok(wire) ==> wire@ == plain_header_bytes(header) + payload@,
{
    let rtp_header = rvoip_rtp_core::RtpHeader::new(
        header.payload_type,
        header.sequence,
        header.timestamp,
        header.ssrc,
    );
    let packet = rvoip_rtp_core::RtpPacket::new(rtp_header, bytes::Bytes::copy_from_slice(payload));
    let wire = packet.serialize()?;
    Ok(wire.to_vec())
}

/// What parsing a datagram yields: the packet that the RTP parser makes of
/// it, or `MalformedPacket` where the parser refuses.
pub open spec fn parsed(bytes: Seq<u8>) -> Result<MediaPacketView, PacketError> {
    match rtp_parse(bytes) {
        Some(p) => Ok(p),
        None => Err(PacketError::MalformedPacket),
    }
}

/// Decodes the header of a datagram and splits off its payload.
///
/// Fails with `MalformedPacket` exactly where the RTP parser refuses the
/// datagram, which includes every datagram shorter than the fixed header and
/// every one whose version bits are not 2.
pub fn parse_packet(bytes: &[u8]) -> (r: Result<MediaPacket, PacketError>)
    ensures
        match parsed(bytes@) {
            Ok(p) => r matches Ok(q) && q@ == p,
            Err(e) => r == Err::<MediaPacket, PacketError>(e),
        },
        bytes@.len() < 12 ==> r is Err,
        bytes@.len() >= 12 && version_bits(bytes@) != 2 ==> r is Err,
        r matches Ok(q) ==> q.header == header_fields(bytes@),
        is_plain(bytes@) ==> (r matches Ok(q) && q.payload@ == bytes@.skip(12)),
{
    match rtp_parse_call(bytes) {
        Ok(p) => Ok(p),
        Err(_) => Err(PacketError::MalformedPacket),
    }
}

/// Builds the audio packet that a client sends: payload type 111 and the
/// given sequence number, timestamp, SSRC and payload.
pub fn create_rtp_packet(sequence: u16, timestamp: u32, ssrc: u32, payload: Vec<u8>) -> (p:
    MediaPacket)
    ensures
        p.header == (PacketHeader { payload_type: 111, sequence, timestamp, ssrc }),
        p.payload@ == payload@,
{
    MediaPacket {
        header: PacketHeader { payload_type: AUDIO_PAYLOAD_TYPE, sequence, timestamp, ssrc },
        payload,
    }
}

/// Serialises a packet for the wire: twelve header bytes, then the payload.
///
/// `None` only if the serialiser fails, which it does not for packets of
/// this shape.
pub fn serialize_packet(packet: &MediaPacket) -> (wire: Option<Vec<u8>>)
    ensures
        wire matches Some(w) && w@ == plain_wire(packet@),
{
    match rtp_serialize_call(packet.header, packet.payload.as_slice()) {
        Ok(w) => Some(w),
        Err(_) => None,
    }
}

/// Parsing undoes serialising: a packet with a 7-bit payload type comes back
/// from its own wire form unchanged.
pub fn round_trip(packet: &MediaPacket) -> (back: Result<MediaPacket, PacketError>)
    requires
        packet.header.payload_type < 128,
    ensures
        back matches Ok(q) && q@ == packet@,
{
    let wire = serialize_packet(packet);
    match wire {
        Some(w) => {
            proof {
                lemma_plain_wire_fields(packet@);
            }
            parse_packet(w.as_slice())
        },
        None => Err(PacketError::MalformedPacket),
    }
}

/// The plain wire form starts with 0x80, carries the header fields in its
/// first twelve bytes and the payload after them.
pub proof fn lemma_plain_wire_fields(p: MediaPacketView)
    requires
        p.header.payload_type < 128,
    ensures
        is_plain(plain_wire(p)),
        header_fields(plain_wire(p)) == p.header,
        plain_wire(p).skip(12) == p.payload,
        version_bits(plain_wire(p)) == 2,
{
    let w = plain_wire(p);
    let h = p.header;
    assert(plain_header_bytes(h).len() == 12);
    assert(w.len() == 12 + p.payload.len());
    assert(w[0] == 0x80u8);
    assert(w[1] == (h.payload_type % 128) as u8);
    assert(w[2] == (h.sequence / 256) as u8);
    assert(w[3] == (h.sequence % 256) as u8);
    assert(w[4] == (h.timestamp / 16777216) as u8);
    assert(w[5] == (h.timestamp / 65536 % 256) as u8);
    assert(w[6] == (h.timestamp / 256 % 256) as u8);
    assert(w[7] == (h.timestamp % 256) as u8);
    assert(w[8] == (h.ssrc / 16777216) as u8);
    assert(w[9] == (h.ssrc / 65536 % 256) as u8);
    assert(w[10] == (h.ssrc / 256 % 256) as u8);
    assert(w[11] == (h.ssrc % 256) as u8);
    assert(w.skip(12) =~= p.payload);
}

} // verus!
