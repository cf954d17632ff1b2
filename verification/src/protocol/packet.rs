use vstd::prelude::*;

verus! {

/// Length of the fixed header: sequence (4) + timestamp (8) + payload length (2).
pub const HEADER_LEN: usize = 14;

/// Unsigned integer encoded little-endian by the bytes of `bytes`.
pub open spec fn le_uint(bytes: Seq<u8>) -> nat
    decreases bytes.len(),
{
    if bytes.len() == 0 {
        0
    } else {
        bytes[0] as nat + 256 * le_uint(bytes.drop_first())
    }
}

/// Abstract value of a packet: its header fields and its payload bytes.
pub struct PacketView {
    pub sequence: u32,
    pub timestamp: u64,
    pub payload: Seq<u8>,
}

/// Payload length declared in the header of `data` (bytes 12..14).
pub open spec fn declared_payload_len(data: Seq<u8>) -> nat {
    le_uint(data.subrange(12, 14))
}

/// What a datagram decodes to.
///
/// Layout (little-endian): `[0..4)` sequence, `[4..12)` timestamp,
/// `[12..14)` payload length `n`, `[14..14+n)` payload. Bytes after the
/// payload are ignored. A datagram shorter than the header, or shorter than
/// the header plus the declared payload, decodes to nothing.
pub open spec fn parse_spec(data: Seq<u8>) -> Option<PacketView> {
    if data.len() < HEADER_LEN {
        None
    } else if data.len() < HEADER_LEN + declared_payload_len(data) {
        None
    } else {
        Some(
            PacketView {
                sequence: le_uint(data.subrange(0, 4)) as u32,
                timestamp: le_uint(data.subrange(4, 12)) as u64,
                payload: data.subrange(
                    HEADER_LEN as int,
                    HEADER_LEN + declared_payload_len(data),
                ),
            },
        )
    }
}

/// An audio packet received over UDP.
#[derive(Debug, Clone)]
pub struct AudioPacket {
    pub sequence: u32,
    pub timestamp: u64,
    pub payload: Vec<u8>,
}

impl View for AudioPacket {
    type V = PacketView;

    open spec fn view(&self) -> PacketView {
        PacketView { sequence: self.sequence, timestamp: self.timestamp, payload: self.payload@ }
    }
}

/// `LittleEndian::read_u16` of byteorder on the bytes from `pos` on: the
/// first two of them, least significant first.
#[verifier::external_body]
fn read_u16_le(data: &[u8], pos: usize) -> (r: u16)
    requires
        pos + 2 <= data@.len(),
    ensures
        r as nat == le_uint(data@.subrange(pos as int, pos + 2)),
{
    <byteorder::LittleEndian as byteorder::ByteOrder>::read_u16(&data[pos..])
}

/// `LittleEndian::read_u32` of byteorder on the bytes from `pos` on: the
/// first four of them, least significant first.
#[verifier::external_body]
fn read_u32_le(data: &[u8], pos: usize) -> (r: u32)
    requires
        pos + 4 <= data@.len(),
    ensures
        r as nat == le_uint(data@.subrange(pos as int, pos + 4)),
{
    <byteorder::LittleEndian as byteorder::ByteOrder>::read_u32(&data[pos..])
}

/// `LittleEndian::read_u64` of byteorder on the bytes from `pos` on: the
/// first eight of them, least significant first.
#[verifier::external_body]
fn read_u64_le(data: &[u8], pos: usize) -> (r: u64)
    requires
        pos + 8 <= data@.len(),
    ensures
        r as nat == le_uint(data@.subrange(pos as int, pos + 8)),
{
    <byteorder::LittleEndian as byteorder::ByteOrder>::read_u64(&data[pos..])
}

/// Decodes one UDP datagram into an audio packet.
pub fn parse_packet(data: &[u8]) -> (r: Option<AudioPacket>)
    ensures
        match r {
            Some(p) => parse_spec(data@) == Some(p@),
            None => parse_spec(data@) is None,
        },
{
    if data.len() < HEADER_LEN {
        return None;
    }
    let sequence = read_u32_le(data, 0);
    let timestamp = read_u64_le(data, 4);
    let payload_len = read_u16_le(data, 12) as usize;
    if data.len() - HEADER_LEN < payload_len {
        return None;
    }
    let mut payload: Vec<u8> = Vec::with_capacity(payload_len);
    let mut i: usize = 0;
    while i < payload_len
        invariant
            i <= payload_len,
            HEADER_LEN + payload_len <= data.len(),
            payload@ == data@.subrange(HEADER_LEN as int, HEADER_LEN + i),
        decreases payload_len - i,
    {
        payload.push(data[HEADER_LEN + i]);
        i = i + 1;
        assert(payload@ =~= data@.subrange(HEADER_LEN as int, HEADER_LEN + i));
    }
    Some(AudioPacket { sequence, timestamp, payload })
}

/// Bytes that follow a complete packet never change what it decodes to.
pub proof fn law_parse_ignores_trailing_bytes(data: Seq<u8>, extra: Seq<u8>)
    requires
        parse_spec(data) is Some,
    ensures
        parse_spec(data + extra) == parse_spec(data),
{
    let d = data + extra;
    assert(d.subrange(0, 4) =~= data.subrange(0, 4));
    assert(d.subrange(4, 12) =~= data.subrange(4, 12));
    assert(d.subrange(12, 14) =~= data.subrange(12, 14));
    assert(d.subrange(HEADER_LEN as int, HEADER_LEN + declared_payload_len(data)) =~= data.subrange(
        HEADER_LEN as int,
        HEADER_LEN + declared_payload_len(data),
    ));
}

/// A datagram is accepted exactly when it holds the header and the whole
/// declared payload; the payload is exactly the declared number of bytes.
pub proof fn law_parse_accepts_exactly_complete_packets(data: Seq<u8>)
    ensures
        parse_spec(data) is Some <==> (data.len() >= HEADER_LEN && data.len() >= HEADER_LEN
            + declared_payload_len(data)),
        parse_spec(data) matches Some(p) ==> p.payload.len() == declared_payload_len(data),
{
}

/// The little-endian value of two, four and eight bytes, byte by byte.
pub proof fn lemma_le_uint_bytes(b: Seq<u8>)
    ensures
        b.len() == 2 ==> le_uint(b) == b[0] + 256 * b[1],
        b.len() == 4 ==> le_uint(b) == b[0] + 256 * b[1] + 65536 * b[2] + 16777216 * b[3],
        b.len() == 8 ==> le_uint(b) == b[0] + 256 * b[1] + 65536 * b[2] + 16777216 * b[3]
            + 4294967296 * b[4] + 1099511627776 * b[5] + 281474976710656 * b[6]
            + 72057594037927936 * b[7],
{
    reveal_with_fuel(le_uint, 9);
    if b.len() >= 2 {
        assert(b.drop_first()[0] == b[1]);
    }
    if b.len() == 2 {
        assert(b.drop_first().drop_first().len() == 0);
    }
    if b.len() >= 4 {
        let t1 = b.drop_first();
        let t2 = t1.drop_first();
        let t3 = t2.drop_first();
        assert(t2[0] == b[2] && t3[0] == b[3]);
        if b.len() == 4 {
            assert(t3.drop_first().len() == 0);
        }
    }
    if b.len() == 8 {
        let t1 = b.drop_first();
        let t2 = t1.drop_first();
        let t3 = t2.drop_first();
        let t4 = t3.drop_first();
        let t5 = t4.drop_first();
        let t6 = t5.drop_first();
        let t7 = t6.drop_first();
        assert(t4[0] == b[4] && t5[0] == b[5] && t6[0] == b[6] && t7[0] == b[7]);
        assert(t7.drop_first().len() == 0);
    }
}

/// What a decoded packet holds, byte by byte: the sequence number is bytes
/// 0..4 least significant first, the timestamp bytes 4..12, the payload
/// length is `data[12] + 256 * data[13]`, and payload byte `i` is datagram
/// byte `14 + i`.
pub proof fn law_parse_fields_from_bytes(data: Seq<u8>)
    ensures
        parse_spec(data) matches Some(p) ==> {
            &&& p.sequence == data[0] + 256 * data[1] + 65536 * data[2] + 16777216 * data[3]
            &&& p.timestamp == data[4] + 256 * data[5] + 65536 * data[6] + 16777216 * data[7]
                + 4294967296 * data[8] + 1099511627776 * data[9] + 281474976710656 * data[10]
                + 72057594037927936 * data[11]
            &&& p.payload.len() == data[12] + 256 * data[13]
            &&& data.len() >= 14 + p.payload.len()
            &&& forall|i: int| 0 <= i < p.payload.len() ==> #[trigger] p.payload[i] == data[14 + i]
        },
        data.len() >= 14 ==> (parse_spec(data) is Some <==> data.len() >= 14 + data[12] + 256
            * data[13]),
{
    if data.len() >= 14 {
        let s0 = data.subrange(0, 4);
        let s1 = data.subrange(4, 12);
        let s2 = data.subrange(12, 14);
        lemma_le_uint_bytes(s0);
        lemma_le_uint_bytes(s1);
        lemma_le_uint_bytes(s2);
        assert(s0[0] == data[0] && s0[1] == data[1] && s0[2] == data[2] && s0[3] == data[3]);
        assert(s1[0] == data[4] && s1[1] == data[5] && s1[2] == data[6] && s1[3] == data[7]);
        assert(s1[4] == data[8] && s1[5] == data[9] && s1[6] == data[10] && s1[7] == data[11]);
        assert(s2[0] == data[12] && s2[1] == data[13]);
    }
}

} // verus!
