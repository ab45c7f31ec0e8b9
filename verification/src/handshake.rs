//! The packet that opens every connection: protocol version, address, port, and
//! what the client wants next.
use crate::error::ProtocolError;
use crate::packet;
use crate::packet::{push_bytes, Start};
use crate::varint;
use crate::varint::{read_varint_slice, VarintReader, VarintScan};
use vstd::prelude::*;

verus! {

/// The longest handshake payload that is read.
pub const MAX_HANDSHAKE_LEN: i32 = 1024;

/// The first byte of the server list ping of clients before 1.7.
pub const LEGACY_PING: u8 = 0xFE;

/// A handshake that was read.
pub struct Handshake {
    /// Every byte of the packet, length prefix and all, so that it can be sent
    /// on to the backend verbatim.
    pub raw: Vec<u8>,
    /// The client's protocol version.
    pub protocol: i32,
    /// What the client asks for: 1 status, 2 login, 3 transfer.
    pub next_state: i32,
}

/// Protocol version and address length of a handshake payload, and the index at
/// which the address starts.
pub open spec fn handshake_head(payload: Seq<u8>) -> Result<(i32, i32, int), ProtocolError> {
    match varint::varint_at(payload, 0) {
        Err(e) => Err(e),
        Ok((id, _)) if id != 0 => Err(ProtocolError::NotAHandshake(id)),
        Ok((_, at_protocol)) => match varint::varint_at(payload, at_protocol) {
            Err(e) => Err(e),
            Ok((protocol, at_address)) => match varint::varint_at(payload, at_address) {
                Err(e) => Err(e),
                Ok((addr_len, at_text)) => Ok((protocol, addr_len, at_text)),
            },
        },
    }
}

/// The address length, taken as an unsigned index, is so near the end of the index
/// range that the two bytes of the port do not fit behind it.
pub open spec fn address_overflows(payload: Seq<u8>) -> bool {
    handshake_head(payload) matches Ok((_, addr_len, _)) && -2 <= addr_len < 0
}

/// The index behind the address of `addr_len` bytes and the two-byte port that
/// start at `idx`. A negative length is, as an index, a length past the end.
pub open spec fn behind_address(s: Seq<u8>, idx: int, addr_len: i32) -> Result<int, ProtocolError>
    recommends
        !(-2 <= addr_len < 0),
{
    if addr_len < 0 || idx + addr_len + 2 > s.len() {
        Err(ProtocolError::TruncatedHandshake)
    } else {
        Ok(idx + addr_len + 2)
    }
}

/// Protocol version and next state of a handshake payload. It is meant for payloads
/// whose address length does not overflow.
pub open spec fn handshake_fields(payload: Seq<u8>) -> Result<(i32, i32), ProtocolError>
    recommends
        !address_overflows(payload),
{
    match handshake_head(payload) {
        Err(e) => Err(e),
        Ok((protocol, addr_len, at_text)) => match behind_address(payload, at_text, addr_len) {
            Err(e) => Err(e),
            Ok(at_state) => match varint::varint_at(payload, at_state) {
                Err(e) => Err(e),
                Ok((next_state, _)) => Ok((protocol, next_state)),
            },
        },
    }
}

/// Reads a handshake payload up to its address, and moves `*idx` there.
fn read_head(payload: &[u8], idx: &mut usize) -> (res: Result<(i32, i32), ProtocolError>)
    requires
        *old(idx) == 0,
    ensures
        match handshake_head(payload@) {
            Ok((protocol, addr_len, at_text)) => res == Ok::<_, ProtocolError>((protocol, addr_len))
                && *final(idx) == at_text,
            Err(e) => res == Err::<(i32, i32), _>(e),
        },
{
    let packet_id: i32 = match read_varint_slice(payload, idx) {
        Ok(id) => id,
        Err(e) => return Err(e),
    };
    if packet_id != 0 {
        return Err(ProtocolError::NotAHandshake(packet_id));
    }
    let protocol: i32 = match read_varint_slice(payload, idx) {
        Ok(protocol) => protocol,
        Err(e) => return Err(e),
    };
    match read_varint_slice(payload, idx) {
        Ok(addr_len) => Ok((protocol, addr_len)),
        Err(e) => Err(e),
    }
}

/// Whether the address length is one that [`parse_handshake`] does not take.
pub fn has_overflowing_address(payload: &[u8]) -> (overflows: bool)
    ensures
        overflows == address_overflows(payload@),
{
    let mut idx: usize = 0;
    match read_head(payload, &mut idx) {
        Ok((_, addr_len)) => -2 <= addr_len && addr_len < 0,
        Err(_) => false,
    }
}

/// Reads the fields of a handshake whose length prefix was `prefix`.
pub fn parse_handshake(prefix: Vec<u8>, payload: &[u8]) -> (res: Result<Handshake, ProtocolError>)
    requires
        !address_overflows(payload@),
    ensures
        match handshake_fields(payload@) {
            Ok((protocol, next_state)) => res matches Ok(hs) && hs.raw@ == prefix@ + payload@
                && hs.protocol == protocol && hs.next_state == next_state,
            Err(e) => res == Err::<Handshake, _>(e),
        },
{
    let mut raw = prefix;
    push_bytes(&mut raw, payload);
    let mut idx: usize = 0;
    let (protocol, addr_len): (i32, i32) = match read_head(payload, &mut idx) {
        Ok(head) => head,
        Err(e) => return Err(e),
    };
    if addr_len < 0 {
        return Err(ProtocolError::TruncatedHandshake);
    }
    let end: usize = payload.len();
    match idx.checked_add(addr_len as usize + 2) {
        Some(at_state) if at_state <= end => {
            idx = at_state;
        },
        _ => return Err(ProtocolError::TruncatedHandshake),
    }
    let next_state: i32 = match read_varint_slice(payload, &mut idx) {
        Ok(next_state) => next_state,
        Err(e) => return Err(e),
    };
    Ok(Handshake { raw, protocol, next_state })
}

/// The length prefix of a handshake at the front of `s`.
pub open spec fn handshake_start(s: Seq<u8>) -> Start {
    if s.len() > 0 && s[0] == LEGACY_PING {
        Start::Refused(ProtocolError::LegacyPing)
    } else {
        match varint::scan_varint(s) {
            VarintScan::Truncated => Start::NeedsByte,
            VarintScan::TooLong => Start::Refused(ProtocolError::VarintTooLong),
            VarintScan::Value { value, .. } => if 0 < value <= MAX_HANDSHAKE_LEN {
                Start::Payload(value as nat)
            } else {
                Start::Refused(ProtocolError::BadHandshakeLength(value))
            },
        }
    }
}

/// The length prefix of a handshake that arrives byte by byte.
pub struct HandshakeReader {
    prefix: VarintReader,
    started: bool,
}

impl View for HandshakeReader {
    type V = Seq<u8>;

    /// The bytes taken so far.
    closed spec fn view(&self) -> Seq<u8> {
        self.prefix@
    }
}

impl HandshakeReader {
    /// The prefix is not complete yet, and may still become so.
    pub closed spec fn open(self) -> bool {
        &&& self.prefix.open()
        &&& self.started == (self.prefix@.len() > 0)
        &&& self.started ==> self.prefix@[0] != LEGACY_PING
    }

    /// A reader that has taken no byte.
    pub fn new() -> (reader: Self)
        ensures
            reader.open(),
            reader@ == Seq::<u8>::empty(),
    {
        HandshakeReader { prefix: VarintReader::new(), started: false }
    }

    /// Takes the next byte of the prefix. `Ok(None)` asks for one more;
    /// `Ok(Some(len))` for the `len` bytes of the payload. The byte of a legacy
    /// ping is not kept.
    pub fn read(&mut self, byte: u8) -> (res: Result<Option<usize>, ProtocolError>)
        requires
            old(self).open(),
        ensures
            final(self)@ == if old(self)@.len() == 0 && byte == LEGACY_PING {
                old(self)@
            } else {
                old(self)@.push(byte)
            },
            match handshake_start(old(self)@.push(byte)) {
                Start::NeedsByte => res == Ok::<_, ProtocolError>(None::<usize>)
                    && final(self).open(),
                Start::Payload(len) => res matches Ok(Some(n)) && n == len
                    && varint::scan_len(final(self)@) == final(self)@.len(),
                Start::Refused(e) => res == Err::<Option<usize>, _>(e),
            },
    {
        if !self.started && byte == LEGACY_PING {
            return Err(ProtocolError::LegacyPing);
        }
        self.started = true;
        match self.prefix.read_varint_stream(byte) {
            Err(e) => Err(e),
            Ok(None) => Ok(None),
            Ok(Some(len)) => if len <= 0 || len > MAX_HANDSHAKE_LEN {
                Err(ProtocolError::BadHandshakeLength(len))
            } else {
                Ok(Some(len as usize))
            },
        }
    }

    /// Completes the handshake with the payload that the prefix announced.
    pub fn finish(self, payload: &[u8]) -> (res: Result<Handshake, ProtocolError>)
        requires
            handshake_start(self@) == Start::Payload(payload@.len()),
            varint::scan_len(self@) == self@.len(),
            !address_overflows(payload@),
        ensures
            match read_handshake(self@ + payload@) {
                HandshakeRead::Handshake { raw, protocol, next_state } => res matches Ok(hs)
                    && hs.raw@ == raw && hs.protocol == protocol && hs.next_state == next_state,
                HandshakeRead::Incomplete => false,
                HandshakeRead::Refused(e) => res == Err::<Handshake, _>(e),
            },
    {
        proof {
            let whole = self@ + payload@;
            varint::law_varint_no_lookahead(self@, payload@);
            assert(whole[0] == self@[0]);
            assert(whole.subrange(self@.len() as int, whole.len() as int) =~= payload@);
            assert(whole.take(whole.len() as int) =~= whole);
        }
        parse_handshake(self.prefix.into_raw(), payload)
    }
}

/// What a stream of bytes yields when a handshake is read from it.
pub enum HandshakeRead {
    /// The handshake.
    Handshake { raw: Seq<u8>, protocol: i32, next_state: i32 },
    /// The stream ends inside the handshake.
    Incomplete,
    /// The stream does not start with an acceptable handshake.
    Refused(ProtocolError),
}

/// Reads a handshake from the stream `s`, where its address length does not overflow.
pub open spec fn read_handshake(s: Seq<u8>) -> HandshakeRead {
    let prefix = varint::scan_len(s);
    match handshake_start(s) {
        Start::NeedsByte => HandshakeRead::Incomplete,
        Start::Refused(e) => HandshakeRead::Refused(e),
        Start::Payload(len) => if prefix + len <= s.len() {
            match handshake_fields(s.subrange(prefix as int, (prefix + len) as int)) {
                Ok((protocol, next_state)) => HandshakeRead::Handshake {
                    raw: s.take((prefix + len) as int),
                    protocol,
                    next_state,
                },
                Err(e) => HandshakeRead::Refused(e),
            }
        } else {
            HandshakeRead::Incomplete
        },
    }
}

/// A reader fed the bytes of a stream asks for more until the prefix is complete
/// or hopeless, decides then as it would with the whole stream at hand, and has
/// kept exactly the stream's bytes.
pub proof fn law_handshake_reader_follows_stream(s: Seq<u8>)
    requires
        s.len() > 0 ==> s[0] != LEGACY_PING,
    ensures
        forall|k: int|
            0 <= k < varint::scan_len(s) ==> handshake_start(#[trigger] s.take(k)) is NeedsByte,
        handshake_start(s.take(varint::scan_len(s) as int)) == handshake_start(s),
{
    varint::law_varint_incremental(s);
    assert forall|k: int| 0 <= k < varint::scan_len(s) implies handshake_start(
        #[trigger] s.take(k),
    ) is NeedsByte by {
        if k > 0 {
            assert(s.take(k)[0] == s[0]);
        }
    }
    let t = s.take(varint::scan_len(s) as int);
    if t.len() > 0 {
        assert(t[0] == s[0]);
    }
}

/// A stream that opens with the legacy ping byte is refused at that byte,
/// whatever follows.
pub proof fn law_legacy_ping_refused(rest: Seq<u8>)
    ensures
        read_handshake(seq![LEGACY_PING] + rest) == HandshakeRead::Refused(
            ProtocolError::LegacyPing,
        ),
        handshake_start(seq![LEGACY_PING]) == Start::Refused(ProtocolError::LegacyPing),
{
}

/// What is kept of a handshake is the front of the stream, byte for byte: sent on,
/// with the rest of the stream behind it, it gives the backend what the client
/// sent.
pub proof fn law_handshake_replays_stream(s: Seq<u8>)
    ensures
        read_handshake(s) matches HandshakeRead::Handshake { raw, .. } ==> raw + s.skip(
            raw.len() as int,
        ) == s && read_handshake(raw) == read_handshake(s),
{
    varint::law_varint_incremental(s);
    if let HandshakeRead::Handshake { raw, .. } = read_handshake(s) {
        let p = varint::scan_len(s) as int;
        assert(raw + s.skip(raw.len() as int) =~= s);
        varint::law_varint_incremental(raw);
        assert(raw.take(p) =~= s.take(p));
        varint::law_varint_no_lookahead(s.take(p), raw.skip(p));
        assert(s.take(p) + raw.skip(p) =~= raw);
        assert(raw[0] == s[0]);
        assert(raw.subrange(p, raw.len() as int) =~= s.subrange(p, raw.len() as int));
        assert(raw.take(raw.len() as int) =~= raw);
    }
}

/// The payload that a client sends: packet id zero, protocol version, address,
/// port, next state.
pub open spec fn handshake_payload(
    protocol: i32,
    address: Seq<u8>,
    port: Seq<u8>,
    next_state: i32,
) -> Seq<u8> {
    varint::encode_varint(0) + varint::encode_varint(protocol) + varint::encode_varint(
        address.len() as i32,
    ) + address + port + varint::encode_varint(next_state)
}

/// A handshake that a client wrote down is read back, whatever its address and
/// port are, and whatever else its payload holds behind the next state.
pub proof fn law_handshake_round_trip(
    protocol: i32,
    address: Seq<u8>,
    port: Seq<u8>,
    next_state: i32,
    extra: Seq<u8>,
)
    requires
        address.len() <= i32::MAX,
        port.len() == 2,
    ensures
        handshake_fields(handshake_payload(protocol, address, port, next_state) + extra) == Ok::<
            (i32, i32),
            ProtocolError,
        >((protocol, next_state)),
{
    let id = varint::encode_varint(0);
    let v = varint::encode_varint(protocol);
    let l = varint::encode_varint(address.len() as i32);
    let n = varint::encode_varint(next_state);
    let s = handshake_payload(protocol, address, port, next_state) + extra;
    let i1 = id.len() as int;
    let i2 = i1 + v.len();
    let i3 = i2 + l.len();
    let i4 = i3 + address.len() + 2;
    assert(s.skip(0) =~= id + s.skip(i1));
    varint::law_varint_round_trip(0, s.skip(i1));
    assert(s.skip(i1) =~= v + s.skip(i2));
    varint::law_varint_round_trip(protocol, s.skip(i2));
    assert(s.skip(i2) =~= l + s.skip(i3));
    varint::law_varint_round_trip(address.len() as i32, s.skip(i3));
    assert(s.skip(i4) =~= n + extra);
    varint::law_varint_round_trip(next_state, extra);
}

/// The length prefix of a framed payload announces that payload.
proof fn lemma_framed_start(payload: Seq<u8>, rest: Seq<u8>)
    requires
        0 < payload.len() <= MAX_HANDSHAKE_LEN,
        packet::frame(payload)[0] != LEGACY_PING,
    ensures
        handshake_start(packet::frame(payload) + rest) == Start::Payload(payload.len()),
        varint::scan_len(packet::frame(payload) + rest) + payload.len() == packet::frame(
            payload,
        ).len(),
{
    let len = payload.len() as i32;
    let s = packet::frame(payload) + rest;
    varint::law_varint_round_trip(len, payload + rest);
    assert(s =~= varint::encode_varint(len) + (payload + rest));
    assert(s[0] == packet::frame(payload)[0]);
}

/// A payload that reads as a handshake does so behind its length, too.
proof fn lemma_framed_handshake(payload: Seq<u8>, rest: Seq<u8>)
    requires
        0 < payload.len() <= MAX_HANDSHAKE_LEN,
        packet::frame(payload)[0] != LEGACY_PING,
    ensures
        handshake_fields(payload) matches Ok((protocol, next_state)) ==> read_handshake(
            packet::frame(payload) + rest,
        ) == (HandshakeRead::Handshake { raw: packet::frame(payload), protocol, next_state }),
{
    let sent = packet::frame(payload);
    let s = sent + rest;
    let p = varint::scan_len(s) as int;
    lemma_framed_start(payload, rest);
    assert(s.subrange(p, p + payload.len()) == payload) by {
        assert(s.subrange(p, p + payload.len()) =~= payload);
    }
    assert(s.take(p + payload.len()) == sent) by {
        assert(s.take(p + payload.len()) =~= sent);
    }
}

/// A handshake that a client sent is read from the stream with nothing missing and
/// nothing of what follows; what its payload holds behind the next state is kept
/// with the rest. The one exception are those whose length prefix starts like a
/// legacy ping.
pub proof fn law_handshake_stream_round_trip(
    protocol: i32,
    address: Seq<u8>,
    port: Seq<u8>,
    next_state: i32,
    extra: Seq<u8>,
    rest: Seq<u8>,
)
    requires
        port.len() == 2,
        handshake_payload(protocol, address, port, next_state).len() + extra.len()
            <= MAX_HANDSHAKE_LEN,
        packet::frame(
            handshake_payload(protocol, address, port, next_state) + extra,
        )[0] != LEGACY_PING,
    ensures
        ({
            let sent = packet::frame(
                handshake_payload(protocol, address, port, next_state) + extra,
            );
            read_handshake(sent + rest) == (HandshakeRead::Handshake {
                raw: sent,
                protocol,
                next_state,
            })
        }),
{
    varint::law_varint_length(0);
    law_handshake_round_trip(protocol, address, port, next_state, extra);
    lemma_framed_handshake(
        handshake_payload(protocol, address, port, next_state) + extra,
        rest,
    );
}

/// A first packet with any id but zero is no handshake, and its id is named.
pub proof fn law_other_packet_is_no_handshake(id: i32, rest: Seq<u8>)
    requires
        id != 0,
    ensures
        handshake_fields(varint::encode_varint(id) + rest) == Err::<(i32, i32), _>(
            ProtocolError::NotAHandshake(id),
        ),
{
    let s = varint::encode_varint(id) + rest;
    varint::law_varint_round_trip(id, rest);
    assert(s.skip(0) =~= s);
}

/// A handshake whose address and port would reach past its end is truncated.
pub proof fn law_address_past_end_is_truncated(protocol: i32, addr_len: i32, tail: Seq<u8>)
    requires
        addr_len < -2 || addr_len >= 0 && addr_len + 2 > tail.len(),
    ensures
        handshake_fields(
            varint::encode_varint(0) + varint::encode_varint(protocol) + varint::encode_varint(
                addr_len,
            ) + tail,
        ) == Err::<(i32, i32), _>(ProtocolError::TruncatedHandshake),
{
    let id = varint::encode_varint(0);
    let v = varint::encode_varint(protocol);
    let l = varint::encode_varint(addr_len);
    let s = id + v + l + tail;
    let i1 = id.len() as int;
    let i2 = i1 + v.len();
    assert(s.skip(0) =~= id + s.skip(i1));
    varint::law_varint_round_trip(0, s.skip(i1));
    assert(s.skip(i1) =~= v + s.skip(i2));
    varint::law_varint_round_trip(protocol, s.skip(i2));
    assert(s.skip(i2) =~= l + tail);
    varint::law_varint_round_trip(addr_len, tail);
}

/// A protocol version that cannot be read is refused for that.
proof fn lemma_unreadable_protocol(bad: Seq<u8>)
    requires
        varint::varint_at(bad, 0) is Err,
    ensures
        handshake_fields(varint::encode_varint(0) + bad) == Err::<(i32, i32), _>(
            varint::varint_at(bad, 0)->Err_0,
        ),
{
    let id = varint::encode_varint(0);
    let s = id + bad;
    assert(bad.skip(0) =~= bad);
    assert(s.skip(0) =~= s);
    assert(s.skip(id.len() as int) =~= bad);
    varint::law_varint_round_trip(0, bad);
}

/// An address length that cannot be read is refused for that.
proof fn lemma_unreadable_address_length(protocol: i32, bad: Seq<u8>)
    requires
        varint::varint_at(bad, 0) is Err,
    ensures
        handshake_fields(varint::encode_varint(0) + varint::encode_varint(protocol) + bad)
            == Err::<(i32, i32), _>(varint::varint_at(bad, 0)->Err_0),
{
    let id = varint::encode_varint(0);
    let v = varint::encode_varint(protocol);
    let s = id + v + bad;
    let i1 = id.len() as int;
    assert(bad.skip(0) =~= bad);
    assert(s.skip(0) =~= id + (v + bad));
    varint::law_varint_round_trip(0, v + bad);
    assert(s.skip(i1) =~= v + bad);
    varint::law_varint_round_trip(protocol, bad);
    assert(s.skip(i1 + v.len()) =~= bad);
}

/// A next state that cannot be read is refused for that.
proof fn lemma_unreadable_next_state(
    protocol: i32,
    address: Seq<u8>,
    port: Seq<u8>,
    bad: Seq<u8>,
)
    requires
        varint::varint_at(bad, 0) is Err,
        address.len() <= i32::MAX,
        port.len() == 2,
    ensures
        handshake_fields(
            varint::encode_varint(0) + varint::encode_varint(protocol) + varint::encode_varint(
                address.len() as i32,
            ) + address + port + bad,
        ) == Err::<(i32, i32), _>(varint::varint_at(bad, 0)->Err_0),
{
    let id = varint::encode_varint(0);
    let v = varint::encode_varint(protocol);
    let l = varint::encode_varint(address.len() as i32);
    let s = id + v + l + address + port + bad;
    let i1 = id.len() as int;
    let i2 = i1 + v.len();
    let i3 = i2 + l.len();
    let i4 = i3 + address.len() + 2;
    assert(bad.skip(0) =~= bad);
    assert(s.skip(0) =~= id + s.skip(i1));
    varint::law_varint_round_trip(0, s.skip(i1));
    assert(s.skip(i1) =~= v + s.skip(i2));
    varint::law_varint_round_trip(protocol, s.skip(i2));
    assert(s.skip(i2) =~= l + s.skip(i3));
    varint::law_varint_round_trip(address.len() as i32, s.skip(i3));
    assert(s.skip(i4) =~= bad);
}

/// Where a VarInt that cannot be read stands in place of one of the fields, the
/// handshake is refused for that VarInt.
pub proof fn law_unreadable_field_is_refused(
    protocol: i32,
    address: Seq<u8>,
    port: Seq<u8>,
    bad: Seq<u8>,
)
    requires
        varint::varint_at(bad, 0) is Err,
        address.len() <= i32::MAX,
        port.len() == 2,
    ensures
        ({
            let refused = Err::<(i32, i32), _>(varint::varint_at(bad, 0)->Err_0);
            let id = varint::encode_varint(0);
            let v = varint::encode_varint(protocol);
            let l = varint::encode_varint(address.len() as i32);
            &&& handshake_fields(bad) == refused
            &&& handshake_fields(id + bad) == refused
            &&& handshake_fields(id + v + bad) == refused
            &&& handshake_fields(id + v + l + address + port + bad) == refused
        }),
{
    assert(bad.skip(0) =~= bad);
    lemma_unreadable_protocol(bad);
    lemma_unreadable_address_length(protocol, bad);
    lemma_unreadable_next_state(protocol, address, port, bad);
}

/// A handshake may be announced with one to 1024 bytes; any other length is refused
/// and named. The byte of a legacy ping comes before all that.
pub proof fn law_handshake_length_bounds(len: i32, rest: Seq<u8>)
    ensures
        handshake_start(varint::encode_varint(len) + rest) == if (varint::encode_varint(len)
            + rest)[0] == 0xFE {
            Start::Refused(ProtocolError::LegacyPing)
        } else if 1 <= len && len <= 1024 {
            Start::Payload(len as nat)
        } else {
            Start::Refused(ProtocolError::BadHandshakeLength(len))
        },
{
    varint::law_varint_round_trip(len, rest);
    varint::law_varint_length(len);
}

} // verus!
