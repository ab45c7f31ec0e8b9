//! Packets: a VarInt length, and that many bytes.
use crate::error::ProtocolError;
use crate::varint;
use crate::varint::{write_varint, VarintReader, VarintScan};
use vstd::prelude::*;
use vstd::utf8;

verus! {

/// `body` behind its length. A length past 32 bits is written modulo `2^32`.
pub open spec fn frame(body: Seq<u8>) -> Seq<u8> {
    varint::varint_bytes(body.len() % 0x1_0000_0000) + body
}

/// The low 32 bits of a length, as the signed number that VarInts carry.
fn wrapped_len(len: usize) -> (v: i32)
    ensures
        varint::unsigned(v) == len as nat % 0x1_0000_0000,
{
    let wide: u64 = len as u64;
    let v: i32 = wide as i32;
    assert(v >= 0 ==> v == wide % 0x1_0000_0000) by (bit_vector)
        requires
            v == wide as i32,
    ;
    assert(v < 0 ==> v + 0x1_0000_0000 == wide % 0x1_0000_0000) by (bit_vector)
        requires
            v == wide as i32,
    ;
    v
}

/// Appends `bytes` to `buf`.
pub(crate) fn push_bytes(buf: &mut Vec<u8>, bytes: &[u8])
    ensures
        final(buf)@ == old(buf)@ + bytes@,
{
    buf.extend_from_slice(bytes);
    assert(buf@ =~= old(buf)@ + bytes@);
}

/// `body` as it goes over the wire.
pub fn frame_packet(body: &[u8]) -> (packet: Vec<u8>)
    ensures
        packet@ == frame(body@),
{
    let mut packet: Vec<u8> = Vec::new();
    write_varint(&mut packet, wrapped_len(body.len()));
    push_bytes(&mut packet, body);
    packet
}

/// The body of a packet that carries one string: its id, the length of the
/// string's UTF-8 form, and that form.
pub open spec fn string_body(id: i32, text: Seq<char>) -> Seq<u8> {
    let bytes = utf8::encode_utf8(text);
    varint::encode_varint(id) + varint::varint_bytes(bytes.len() % 0x1_0000_0000) + bytes
}

/// The packet with this id that carries `text`, as it goes over the wire.
pub fn string_packet(id: i32, text: &str) -> (packet: Vec<u8>)
    ensures
        packet@ == frame(string_body(id, text@)),
{
    let bytes: &[u8] = text.as_bytes();
    let mut body: Vec<u8> = Vec::new();
    write_varint(&mut body, id);
    write_varint(&mut body, wrapped_len(bytes.len()));
    push_bytes(&mut body, bytes);
    assert(body@ =~= string_body(id, text@));
    frame_packet(body.as_slice())
}

/// What the bytes of a length prefix say so far.
pub enum Start {
    /// The prefix goes on.
    NeedsByte,
    /// The prefix is complete: this many payload bytes follow.
    Payload(nat),
    /// Nothing that follows can make this acceptable.
    Refused(ProtocolError),
}

/// The length prefix at the front of `s`, for payloads of `1` to `max_len` bytes.
pub open spec fn packet_start(s: Seq<u8>, max_len: i32) -> Start {
    match varint::scan_varint(s) {
        VarintScan::Truncated => Start::NeedsByte,
        VarintScan::TooLong => Start::Refused(ProtocolError::VarintTooLong),
        VarintScan::Value { value, .. } => if 0 < value <= max_len {
            Start::Payload(value as nat)
        } else {
            Start::Refused(ProtocolError::BadPacketLength(value))
        },
    }
}

/// What a stream of bytes yields when one packet is read from it.
pub enum PacketRead {
    /// The packet's payload, and how many bytes of the stream it took.
    Packet { payload: Seq<u8>, used: nat },
    /// The stream ends inside the packet.
    Incomplete,
    /// The stream does not start with an acceptable packet.
    Refused(ProtocolError),
}

/// Reads one packet, of `1` to `max_len` payload bytes, from the stream `s`.
pub open spec fn read_packet(s: Seq<u8>, max_len: i32) -> PacketRead {
    let prefix = varint::scan_len(s);
    match packet_start(s, max_len) {
        Start::NeedsByte => PacketRead::Incomplete,
        Start::Refused(e) => PacketRead::Refused(e),
        Start::Payload(len) => if prefix + len <= s.len() {
            PacketRead::Packet {
                payload: s.subrange(prefix as int, (prefix + len) as int),
                used: prefix + len,
            }
        } else {
            PacketRead::Incomplete
        },
    }
}

/// The length prefix of a packet that arrives byte by byte.
pub struct PacketReader {
    prefix: VarintReader,
    max_len: i32,
}

impl View for PacketReader {
    type V = Seq<u8>;

    /// The bytes taken so far.
    closed spec fn view(&self) -> Seq<u8> {
        self.prefix@
    }
}

impl PacketReader {
    /// The prefix is not complete yet, and may still become so.
    pub closed spec fn open(self) -> bool {
        self.prefix.open()
    }

    /// The longest payload it lets through.
    pub closed spec fn limit(self) -> i32 {
        self.max_len
    }

    /// A reader for a packet of at most `max_len` payload bytes.
    pub fn new(max_len: i32) -> (reader: Self)
        ensures
            reader.open(),
            reader@ == Seq::<u8>::empty(),
            reader.limit() == max_len,
    {
        PacketReader { prefix: VarintReader::new(), max_len }
    }

    /// Takes the next byte of the prefix. `Ok(None)` asks for one more;
    /// `Ok(Some(len))` for the `len` bytes of the payload.
    pub fn read(&mut self, byte: u8) -> (res: Result<Option<usize>, ProtocolError>)
        requires
            old(self).open(),
        ensures
            final(self)@ == old(self)@.push(byte),
            final(self).limit() == old(self).limit(),
            match packet_start(final(self)@, old(self).limit()) {
                Start::NeedsByte => res == Ok::<_, ProtocolError>(None::<usize>)
                    && final(self).open(),
                Start::Payload(len) => res matches Ok(Some(n)) && n == len
                    && varint::scan_len(final(self)@) == final(self)@.len(),
                Start::Refused(e) => res == Err::<Option<usize>, _>(e),
            },
    {
        match self.prefix.read_varint_stream(byte) {
            Err(e) => Err(e),
            Ok(None) => Ok(None),
            Ok(Some(len)) => if len <= 0 || len > self.max_len {
                Err(ProtocolError::BadPacketLength(len))
            } else {
                Ok(Some(len as usize))
            },
        }
    }
}

/// The length of a frame's body, as a reader sees it.
proof fn lemma_frame_prefix(body: Seq<u8>, rest: Seq<u8>)
    requires
        body.len() <= i32::MAX,
    ensures
        varint::scan_varint(frame(body) + rest) == (VarintScan::Value {
            value: body.len() as i32,
            used: (frame(body).len() - body.len()) as nat,
        }),
{
    let len = body.len() as i32;
    varint::law_varint_round_trip(len, body + rest);
    assert(frame(body) + rest =~= varint::encode_varint(len) + (body + rest));
}

/// A body written as a packet is read back unchanged, and not one byte more than
/// the packet is taken from the stream.
pub proof fn law_packet_round_trip(body: Seq<u8>, rest: Seq<u8>, max_len: i32)
    requires
        0 < body.len() <= max_len,
    ensures
        read_packet(frame(body) + rest, max_len) == (PacketRead::Packet {
            payload: body,
            used: frame(body).len(),
        }),
{
    lemma_frame_prefix(body, rest);
    let s = frame(body) + rest;
    let p = varint::scan_len(s) as int;
    assert(s.subrange(p, p + body.len()) =~= body);
}

/// A packet without a payload, or with one that is longer than the reader lets
/// through, is refused by its length alone.
pub proof fn law_packet_out_of_bounds(body: Seq<u8>, rest: Seq<u8>, max_len: i32)
    requires
        body.len() == 0 || max_len < body.len() <= i32::MAX,
    ensures
        read_packet(frame(body) + rest, max_len) == PacketRead::Refused(
            ProtocolError::BadPacketLength(body.len() as i32),
        ),
{
    lemma_frame_prefix(body, rest);
}

/// A reader fed the bytes of a stream asks for more until the prefix is complete
/// or hopeless, and decides then as it would with the whole stream at hand.
pub proof fn law_packet_reader_follows_stream(s: Seq<u8>, max_len: i32)
    ensures
        forall|k: int|
            0 <= k < varint::scan_len(s) ==> packet_start(#[trigger] s.take(k), max_len) is NeedsByte,
        packet_start(s.take(varint::scan_len(s) as int), max_len) == packet_start(s, max_len),
{
    varint::law_varint_incremental(s);
}

/// A complete prefix and as many bytes as it announced are one packet, whose
/// payload those bytes are.
pub proof fn law_packet_completed(prefix: Seq<u8>, payload: Seq<u8>, max_len: i32)
    requires
        packet_start(prefix, max_len) == Start::Payload(payload.len()),
        varint::scan_len(prefix) == prefix.len(),
    ensures
        read_packet(prefix + payload, max_len) == (PacketRead::Packet {
            payload,
            used: prefix.len() + payload.len(),
        }),
{
    varint::law_varint_no_lookahead(prefix, payload);
    let whole = prefix + payload;
    assert(whole.subrange(prefix.len() as int, whole.len() as int) =~= payload);
}

/// A packet that carries a string gives its id, the string's length and the
/// string itself back.
pub proof fn law_string_packet_reads_back(id: i32, text: Seq<char>, rest: Seq<u8>)
    requires
        string_body(id, text).len() <= i32::MAX,
    ensures
        ({
            let body = string_body(id, text);
            let bytes = utf8::encode_utf8(text);
            let at_len = varint::encode_varint(id).len() as int;
            let at_text = body.len() - bytes.len();
            &&& read_packet(frame(body) + rest, i32::MAX) == (PacketRead::Packet {
                payload: body,
                used: frame(body).len(),
            })
            &&& varint::varint_at(body, 0) == Ok::<(i32, int), ProtocolError>((id, at_len))
            &&& varint::varint_at(body, at_len) == Ok::<(i32, int), ProtocolError>(
                (bytes.len() as i32, at_text),
            )
            &&& utf8::decode_utf8(body.skip(at_text)) == text
        }),
{
    let body = string_body(id, text);
    let bytes = utf8::encode_utf8(text);
    let len = bytes.len() as i32;
    let at_len = varint::encode_varint(id).len() as int;
    let at_text = body.len() - bytes.len();
    varint::law_varint_length(id);
    law_packet_round_trip(body, rest, i32::MAX);
    assert(body.skip(0) =~= varint::encode_varint(id) + body.skip(at_len));
    varint::law_varint_round_trip(id, body.skip(at_len));
    assert(body.skip(at_len) =~= varint::encode_varint(len) + bytes);
    varint::law_varint_round_trip(len, bytes);
    assert(body.skip(at_text) =~= bytes);
    utf8::encode_utf8_decode_utf8(text);
}

/// The id and the string of a packet that carries one string and nothing else, read
/// off the wire.
pub open spec fn carried_text(sent: Seq<u8>) -> Option<(i32, Seq<char>)> {
    match read_packet(sent, i32::MAX) {
        PacketRead::Packet { payload, used } if used == sent.len() => match varint::varint_at(
            payload,
            0,
        ) {
            Ok((id, at_len)) => match varint::varint_at(payload, at_len) {
                Ok((len, at_text)) if at_text + len == payload.len() && utf8::valid_utf8(
                    payload.skip(at_text),
                ) => Some((id, utf8::decode_utf8(payload.skip(at_text)))),
                _ => None,
            },
            Err(_) => None,
        },
        _ => None,
    }
}

/// Whoever reads a packet that was written to carry a string gets its id and exactly
/// that string.
pub proof fn law_string_packet_carries_text(id: i32, text: Seq<char>)
    requires
        frame(string_body(id, text)).len() <= i32::MAX,
    ensures
        carried_text(frame(string_body(id, text))) == Some((id, text)),
{
    let body = string_body(id, text);
    let bytes = utf8::encode_utf8(text);
    law_string_packet_reads_back(id, text, Seq::empty());
    assert(frame(body) + Seq::<u8>::empty() =~= frame(body));
    assert(body.skip(body.len() - bytes.len()) =~= bytes);
    utf8::encode_utf8_valid_utf8(text);
}

/// A length is let through exactly from one to the limit; any other, a negative one
/// among them, is refused and named.
pub proof fn law_packet_length_bounds(len: i32, rest: Seq<u8>, max_len: i32)
    ensures
        packet_start(varint::encode_varint(len) + rest, max_len) == if 1 <= len && len <= max_len {
            Start::Payload(len as nat)
        } else {
            Start::Refused(ProtocolError::BadPacketLength(len))
        },
{
    varint::law_varint_round_trip(len, rest);
}

} // verus!
