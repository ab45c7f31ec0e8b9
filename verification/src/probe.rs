//! Asking the backend whether it serves: a connection alone proves nothing, only
//! an answer to a status request does.
use crate::handshake;
use crate::packet;
use crate::packet::{frame_packet, push_bytes};
use crate::varint;
use crate::varint::write_varint;
use vstd::prelude::*;
use vstd::utf8;

verus! {

/// How long a whole probe may take.
pub const PROBE_TIMEOUT_SECS: u64 = 2;

/// The longest status answer that is read; it may hold an icon.
pub const MAX_STATUS_LEN: i32 = 65536;

/// The payload of the handshake that opens a probe: protocol version zero, the
/// address "probe", port zero, and then the status exchange.
pub open spec fn probe_handshake() -> Seq<u8> {
    handshake::handshake_payload(0, utf8::encode_utf8("probe"@), seq![0u8, 0u8], 1)
}

/// The handshake that opens a probe, as it goes over the wire.
pub fn probe_handshake_packet() -> (packet: Vec<u8>)
    ensures
        packet@ == packet::frame(probe_handshake()),
{
    proof {
        reveal_strlit("probe");
        utf8::is_ascii_chars_encode_utf8("probe"@);
    }
    let address: &[u8] = "probe".as_bytes();
    let mut body: Vec<u8> = Vec::new();
    write_varint(&mut body, 0);
    write_varint(&mut body, 0);
    write_varint(&mut body, 5);
    push_bytes(&mut body, address);
    body.push(0);
    body.push(0);
    write_varint(&mut body, 1);
    assert(body@ =~= probe_handshake());
    frame_packet(body.as_slice())
}

/// The status request, as it goes over the wire.
pub fn status_request_packet() -> (packet: Vec<u8>)
    ensures
        packet@ == packet::frame(varint::encode_varint(0)),
{
    let mut body: Vec<u8> = Vec::new();
    write_varint(&mut body, 0);
    assert(body@ =~= varint::encode_varint(0));
    frame_packet(body.as_slice())
}

/// How far a probe has got.
#[derive(Clone, Copy, Debug, PartialEq, Eq, Structural)]
pub enum Probe {
    /// A connection is to be opened.
    Connecting,
    /// The handshake is to be sent.
    SendingHandshake,
    /// The status request is to be sent.
    SendingRequest,
    /// A packet of at most [`MAX_STATUS_LEN`] bytes is to be read.
    AwaitingAnswer,
    /// The backend serves, or it does not.
    Ended(bool),
}

/// What a probe asks for.
pub enum ProbeActionOf<B> {
    /// Connect to the backend.
    Connect,
    /// Send this.
    Send(B),
    /// Read a packet of at most this many payload bytes.
    ReadPacket(i32),
    /// Say whether the backend serves.
    Report(bool),
}

/// What a probe asks for, with the bytes to send.
pub type ProbeAction = ProbeActionOf<Vec<u8>>;

impl View for ProbeActionOf<Vec<u8>> {
    type V = ProbeActionOf<Seq<u8>>;

    open spec fn view(&self) -> ProbeActionOf<Seq<u8>> {
        match self {
            ProbeActionOf::Connect => ProbeActionOf::Connect,
            ProbeActionOf::Send(b) => ProbeActionOf::Send(b@),
            ProbeActionOf::ReadPacket(max_len) => ProbeActionOf::ReadPacket(*max_len),
            ProbeActionOf::Report(ready) => ProbeActionOf::Report(*ready),
        }
    }
}

impl Probe {
    /// What is to be done next.
    pub open spec fn asks(self) -> ProbeActionOf<Seq<u8>> {
        match self {
            Probe::Connecting => ProbeActionOf::Connect,
            Probe::SendingHandshake => ProbeActionOf::Send(packet::frame(probe_handshake())),
            Probe::SendingRequest => ProbeActionOf::Send(packet::frame(varint::encode_varint(0))),
            Probe::AwaitingAnswer => ProbeActionOf::ReadPacket(MAX_STATUS_LEN),
            Probe::Ended(ready) => ProbeActionOf::Report(ready),
        }
    }

    /// What is to be done next.
    pub fn action(&self) -> (action: ProbeAction)
        ensures
            action@ == self.asks(),
    {
        match self {
            Probe::Connecting => ProbeActionOf::Connect,
            Probe::SendingHandshake => ProbeActionOf::Send(probe_handshake_packet()),
            Probe::SendingRequest => ProbeActionOf::Send(status_request_packet()),
            Probe::AwaitingAnswer => ProbeActionOf::ReadPacket(MAX_STATUS_LEN),
            Probe::Ended(ready) => ProbeActionOf::Report(*ready),
        }
    }

    /// The probe when what was to be done has been done, or has failed or taken longer
    /// than is left of [`PROBE_TIMEOUT_SECS`].
    pub open spec fn after(self, done: bool) -> Probe {
        match self {
            Probe::Ended(ready) => Probe::Ended(ready),
            _ if !done => Probe::Ended(false),
            Probe::Connecting => Probe::SendingHandshake,
            Probe::SendingHandshake => Probe::SendingRequest,
            Probe::SendingRequest => Probe::AwaitingAnswer,
            Probe::AwaitingAnswer => Probe::Ended(true),
        }
    }

    /// Goes on when what was to be done has been done, or has failed or taken longer
    /// than is left of [`PROBE_TIMEOUT_SECS`].
    pub fn step(self, done: bool) -> (next: Probe)
        ensures
            next == self.after(done),
    {
        match self {
            Probe::Ended(ready) => Probe::Ended(ready),
            _ if !done => Probe::Ended(false),
            Probe::Connecting => Probe::SendingHandshake,
            Probe::SendingHandshake => Probe::SendingRequest,
            Probe::SendingRequest => Probe::AwaitingAnswer,
            Probe::AwaitingAnswer => Probe::Ended(true),
        }
    }
}

/// The probe after a series of steps that were done or failed.
pub open spec fn probe_after(results: Seq<bool>) -> Probe
    decreases results.len(),
{
    if results.len() == 0 {
        Probe::Connecting
    } else {
        probe_after(results.drop_last()).after(results.last())
    }
}

/// The backend is found to serve exactly when it took the connection, the
/// handshake and the request, and a well-formed packet came back: nothing short
/// of the answer will do.
pub proof fn law_ready_means_answered(results: Seq<bool>)
    ensures
        probe_after(results) == Probe::Ended(true) <==> results.len() >= 4 && results[0]
            && results[1] && results[2] && results[3],
{
    lemma_probe_after(results);
}

/// Where a probe is after its steps.
proof fn lemma_probe_after(results: Seq<bool>)
    ensures
        probe_after(results) == if exists|i: int|
            0 <= i < results.len() && i < 4 && !(#[trigger] results[i]) {
            Probe::Ended(false)
        } else if results.len() == 0 {
            Probe::Connecting
        } else if results.len() == 1 {
            Probe::SendingHandshake
        } else if results.len() == 2 {
            Probe::SendingRequest
        } else if results.len() == 3 {
            Probe::AwaitingAnswer
        } else {
            Probe::Ended(true)
        },
    decreases results.len(),
{
    if results.len() > 0 {
        let before = results.drop_last();
        lemma_probe_after(before);
        if exists|i: int| 0 <= i < before.len() && i < 4 && !(#[trigger] before[i]) {
            let i = choose|i: int| 0 <= i < before.len() && i < 4 && !(#[trigger] before[i]);
            assert(!results[i]);
        }
        if exists|i: int| 0 <= i < results.len() && i < 4 && !(#[trigger] results[i]) {
            let i = choose|i: int| 0 <= i < results.len() && i < 4 && !(#[trigger] results[i]);
            if i < before.len() {
                assert(!before[i]);
            }
        }
    }
}

/// What a probe does, as long as all goes well: it connects, sends a handshake that
/// asks for the status, sends the status request, and reads an answer of at most 64
/// KiB. Then, and only then, it says that the backend serves; as soon as something
/// fails, it says that it does not.
pub proof fn law_probe_asks_for_status(results: Seq<bool>)
    ensures
        ({
            let action = probe_after(results).asks();
            let well = forall|i: int| 0 <= i < results.len() && i < 4 ==> #[trigger] results[i];
            &&& !well ==> action == ProbeActionOf::<Seq<u8>>::Report(false)
            &&& well && results.len() == 0 ==> action == ProbeActionOf::<Seq<u8>>::Connect
            &&& well && results.len() == 1 ==> (action matches ProbeActionOf::Send(sent)
                && handshake::read_handshake(sent) == (handshake::HandshakeRead::Handshake {
                raw: sent,
                protocol: 0,
                next_state: 1,
            }))
            &&& well && results.len() == 2 ==> (action matches ProbeActionOf::Send(sent)
                && packet::read_packet(sent, 128) == (packet::PacketRead::Packet {
                payload: seq![0u8],
                used: sent.len(),
            }))
            &&& well && results.len() == 3 ==> action == ProbeActionOf::<Seq<u8>>::ReadPacket(65536)
            &&& well && results.len() >= 4 ==> action == ProbeActionOf::<Seq<u8>>::Report(true)
        }),
{
    lemma_probe_after(results);
    let none = Seq::<u8>::empty();
    let zero = varint::encode_varint(0);
    assert(zero =~= seq![0u8]);
    packet::law_packet_round_trip(zero, none, 128);
    assert(packet::frame(zero) + none =~= packet::frame(zero));
    let sent = packet::frame(probe_handshake());
    reveal_strlit("probe");
    utf8::is_ascii_chars_encode_utf8("probe"@);
    let address = utf8::encode_utf8("probe"@);
    varint::law_varint_length(0);
    varint::law_varint_length(5);
    varint::law_varint_length(1);
    assert(probe_handshake().len() == 11);
    assert(probe_handshake() + none =~= probe_handshake());
    assert(sent + none =~= sent);
    handshake::law_handshake_stream_round_trip(0, address, seq![0u8, 0u8], 1, none, none);
}

} // verus!
