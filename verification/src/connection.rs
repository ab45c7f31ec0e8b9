//! One client's connection, from its handshake to its end.
//!
//! A connection is always in some [`PhaseOf`], which says by its action what is
//! to be done next; the event that comes of it leads to the next phase.
use crate::error::ProtocolError;
use crate::json;
use crate::packet;
use crate::packet::string_packet;
use crate::probe::PROBE_TIMEOUT_SECS;
use crate::proxy::{ProxyState, AWAKE_WINDOW_NANOS};
use crate::settings::Settings;
use crate::status;
use crate::status::{reply_to_status_packet, SleepState, StatusReplyOf};
use crate::varint;
use crate::wake::WAKE_DEADLINE_SECS;
use vstd::prelude::*;
use vstd::utf8;

verus! {

/// How long the handshake may take.
pub const HANDSHAKE_TIMEOUT_SECS: u64 = 10;

/// How long a status exchange that is answered here may take in all.
pub const STATUS_TIMEOUT_SECS: u64 = 10;

/// The longest packet of a status exchange.
pub const MAX_STATUS_PACKET_LEN: i32 = 128;

/// The longest login packet that is read before a player is turned away.
pub const MAX_LOGIN_PACKET_LEN: i32 = 4096;

/// How long that packet is waited for.
pub const LOGIN_DRAIN_MILLIS: u64 = 500;

/// How long a player who was turned away may take to close the connection.
pub const LINGER_SECS: u64 = 5;

/// How a connection ends.
#[derive(Clone, Copy, Debug, PartialEq, Eq, Structural)]
pub enum Outcome {
    /// As it should.
    Done,
    /// The client broke the protocol, or was too slow.
    Failed(ProtocolError),
    /// Reading or writing failed.
    IoError,
}

/// What came of an action.
pub enum EventOf<B> {
    /// A handshake was read.
    HandshakeRead { raw: B, protocol: i32, next_state: i32 },
    /// A packet was read; this is its payload.
    PacketRead(B),
    /// It was done.
    Done,
    /// The backend serves.
    Ready,
    /// The backend does not serve.
    NotReady,
    /// It was not done in time.
    TimedOut,
    /// The client broke the protocol.
    Failed(ProtocolError),
    /// Reading or writing failed.
    IoError,
}

/// An event with the bytes that were read.
pub type Event = EventOf<Vec<u8>>;

impl View for EventOf<Vec<u8>> {
    type V = EventOf<Seq<u8>>;

    open spec fn view(&self) -> EventOf<Seq<u8>> {
        match self {
            EventOf::HandshakeRead { raw, protocol, next_state } => EventOf::HandshakeRead {
                raw: raw@,
                protocol: *protocol,
                next_state: *next_state,
            },
            EventOf::PacketRead(payload) => EventOf::PacketRead(payload@),
            EventOf::Done => EventOf::Done,
            EventOf::Ready => EventOf::Ready,
            EventOf::NotReady => EventOf::NotReady,
            EventOf::TimedOut => EventOf::TimedOut,
            EventOf::Failed(e) => EventOf::Failed(*e),
            EventOf::IoError => EventOf::IoError,
        }
    }
}

/// What is to be done next.
pub enum ActionOf<B> {
    /// Read a handshake, within this many seconds.
    ReadHandshake(u64),
    /// Connect to the backend.
    ConnectBackend,
    /// Send this to the backend.
    SendBackend(B),
    /// Copy bytes between client and backend until both are done.
    Relay,
    /// Read a packet of at most this many payload bytes.
    ReadPacket(i32),
    /// Send this to the client.
    SendClient(B),
    /// Flush what was sent to the client.
    FlushClient,
    /// Probe the backend, within this many seconds; a probe that takes longer
    /// says that it does not serve.
    Probe(u64),
    /// Start a wake task: one that waits for the backend to serve, at most this
    /// many seconds.
    SpawnWake(u64),
    /// Wait for the backend to serve, at most this many seconds.
    Hold(u64),
    /// Read a packet of at most this many payload bytes and drop it, at most this
    /// many milliseconds, whether it comes or not.
    DrainPacket(i32, u64),
    /// Tell the client that nothing more will be sent, if that can be done.
    ShutdownClient,
    /// Read and drop what the client sends until it closes, at most this many
    /// seconds.
    Linger(u64),
    /// Close the connection.
    Finish(Outcome),
}

/// An action with the bytes to send.
pub type Action<'a> = ActionOf<&'a Vec<u8>>;

impl<'a> View for ActionOf<&'a Vec<u8>> {
    type V = ActionOf<Seq<u8>>;

    open spec fn view(&self) -> ActionOf<Seq<u8>> {
        match self {
            ActionOf::ReadHandshake(secs) => ActionOf::ReadHandshake(*secs),
            ActionOf::ConnectBackend => ActionOf::ConnectBackend,
            ActionOf::SendBackend(b) => ActionOf::SendBackend(b@),
            ActionOf::Relay => ActionOf::Relay,
            ActionOf::ReadPacket(max_len) => ActionOf::ReadPacket(*max_len),
            ActionOf::SendClient(b) => ActionOf::SendClient(b@),
            ActionOf::FlushClient => ActionOf::FlushClient,
            ActionOf::Probe(secs) => ActionOf::Probe(*secs),
            ActionOf::SpawnWake(secs) => ActionOf::SpawnWake(*secs),
            ActionOf::Hold(secs) => ActionOf::Hold(*secs),
            ActionOf::DrainPacket(max_len, millis) => ActionOf::DrainPacket(*max_len, *millis),
            ActionOf::ShutdownClient => ActionOf::ShutdownClient,
            ActionOf::Linger(secs) => ActionOf::Linger(*secs),
            ActionOf::Finish(outcome) => ActionOf::Finish(*outcome),
        }
    }
}

/// How far a connection has got.
pub enum PhaseOf<B> {
    /// Nothing is known of the client.
    AwaitingHandshake,
    /// A status ping while someone plays: the backend may answer it.
    StatusConnecting { raw: B },
    /// Its handshake goes to the backend.
    StatusForwarding { raw: B },
    /// The backend answers it.
    StatusRelaying,
    /// A status ping while nobody plays: a packet is awaited.
    StatusReading { protocol: i32, state: SleepState },
    /// The status document is sent.
    StatusReplying { protocol: i32, state: SleepState, reply: B },
    /// The answer to a ping is sent.
    PongSending { reply: B },
    /// It is flushed.
    PongFlushing,
    /// A player wants to join: does the backend serve?
    Probing { raw: B },
    /// It does not, and nobody wakes it yet.
    WakeStarting { raw: B },
    /// It is being woken, and the player waits for it.
    Holding { raw: B, secs: u64 },
    /// It serves: the player, who was held or not, is connected to it.
    LoginConnecting { raw: B, held: bool },
    /// The player's handshake goes to it.
    LoginReplaying { raw: B },
    /// The player plays.
    LoginRelaying,
    /// The player is turned away: what it has sent is taken off the line first.
    TurnAwayDraining,
    /// It is told why.
    TurnAwaySending { reply: B },
    /// That is flushed.
    TurnAwayFlushing,
    /// The connection is closed on this side.
    TurnAwayClosing,
    /// The player closes its side.
    TurnAwayLingering,
    /// The connection has ended.
    Finished(Outcome),
}

/// A connection.
pub type Connection = PhaseOf<Vec<u8>>;

impl View for PhaseOf<Vec<u8>> {
    type V = PhaseOf<Seq<u8>>;

    open spec fn view(&self) -> PhaseOf<Seq<u8>> {
        match self {
            PhaseOf::AwaitingHandshake => PhaseOf::AwaitingHandshake,
            PhaseOf::StatusConnecting { raw } => PhaseOf::StatusConnecting { raw: raw@ },
            PhaseOf::StatusForwarding { raw } => PhaseOf::StatusForwarding { raw: raw@ },
            PhaseOf::StatusRelaying => PhaseOf::StatusRelaying,
            PhaseOf::StatusReading { protocol, state } => PhaseOf::StatusReading {
                protocol: *protocol,
                state: *state,
            },
            PhaseOf::StatusReplying { protocol, state, reply } => PhaseOf::StatusReplying {
                protocol: *protocol,
                state: *state,
                reply: reply@,
            },
            PhaseOf::PongSending { reply } => PhaseOf::PongSending { reply: reply@ },
            PhaseOf::PongFlushing => PhaseOf::PongFlushing,
            PhaseOf::Probing { raw } => PhaseOf::Probing { raw: raw@ },
            PhaseOf::WakeStarting { raw } => PhaseOf::WakeStarting { raw: raw@ },
            PhaseOf::Holding { raw, secs } => PhaseOf::Holding { raw: raw@, secs: *secs },
            PhaseOf::LoginConnecting { raw, held } => PhaseOf::LoginConnecting {
                raw: raw@,
                held: *held,
            },
            PhaseOf::LoginReplaying { raw } => PhaseOf::LoginReplaying { raw: raw@ },
            PhaseOf::LoginRelaying => PhaseOf::LoginRelaying,
            PhaseOf::TurnAwayDraining => PhaseOf::TurnAwayDraining,
            PhaseOf::TurnAwaySending { reply } => PhaseOf::TurnAwaySending { reply: reply@ },
            PhaseOf::TurnAwayFlushing => PhaseOf::TurnAwayFlushing,
            PhaseOf::TurnAwayClosing => PhaseOf::TurnAwayClosing,
            PhaseOf::TurnAwayLingering => PhaseOf::TurnAwayLingering,
            PhaseOf::Finished(outcome) => PhaseOf::Finished(*outcome),
        }
    }
}

/// What a phase asks for.
pub open spec fn action_of(phase: PhaseOf<Seq<u8>>) -> ActionOf<Seq<u8>> {
    match phase {
        PhaseOf::AwaitingHandshake => ActionOf::ReadHandshake(HANDSHAKE_TIMEOUT_SECS),
        PhaseOf::StatusConnecting { .. } => ActionOf::ConnectBackend,
        PhaseOf::StatusForwarding { raw } => ActionOf::SendBackend(raw),
        PhaseOf::StatusRelaying => ActionOf::Relay,
        PhaseOf::StatusReading { .. } => ActionOf::ReadPacket(MAX_STATUS_PACKET_LEN),
        PhaseOf::StatusReplying { reply, .. } => ActionOf::SendClient(reply),
        PhaseOf::PongSending { reply } => ActionOf::SendClient(reply),
        PhaseOf::PongFlushing => ActionOf::FlushClient,
        PhaseOf::Probing { .. } => ActionOf::Probe(PROBE_TIMEOUT_SECS),
        PhaseOf::WakeStarting { .. } => ActionOf::SpawnWake(WAKE_DEADLINE_SECS),
        PhaseOf::Holding { secs, .. } => ActionOf::Hold(secs),
        PhaseOf::LoginConnecting { .. } => ActionOf::ConnectBackend,
        PhaseOf::LoginReplaying { raw } => ActionOf::SendBackend(raw),
        PhaseOf::LoginRelaying => ActionOf::Relay,
        PhaseOf::TurnAwayDraining => ActionOf::DrainPacket(
            MAX_LOGIN_PACKET_LEN,
            LOGIN_DRAIN_MILLIS,
        ),
        PhaseOf::TurnAwaySending { reply } => ActionOf::SendClient(reply),
        PhaseOf::TurnAwayFlushing => ActionOf::FlushClient,
        PhaseOf::TurnAwayClosing => ActionOf::ShutdownClient,
        PhaseOf::TurnAwayLingering => ActionOf::Linger(LINGER_SECS),
        PhaseOf::Finished(outcome) => ActionOf::Finish(outcome),
    }
}

/// The login disconnect packet that shows `json_text`, which stands inside a
/// JSON string literal.
pub open spec fn disconnect_packet(json_text: Seq<char>) -> Seq<u8> {
    packet::frame(packet::string_body(0, r#"{"text":""#@ + json_text + r#""}"#@))
}

/// The login disconnect packet that shows `json_text`.
pub fn login_disconnect(json_text: &str) -> (out: Vec<u8>)
    ensures
        out@ == disconnect_packet(json_text@),
{
    let mut json: String = r#"{"text":""#.to_owned();
    json.append(json_text);
    json.append(r#""}"#);
    string_packet(0, json.as_str())
}

/// What a player is told who joins a sleeping server.
pub open spec fn wake_message() -> Seq<char> {
    r"\u00a7e\u26a1 The server was asleep \u2014 waking it up now!\n\u00a77Rejoin in ~30 seconds and you're in."@
}

/// Where a handshake leads.
pub open spec fn route(
    proxy: ProxyState,
    now: u128,
    raw: Seq<u8>,
    protocol: i32,
    next_state: i32,
) -> PhaseOf<Seq<u8>> {
    if next_state == 1 {
        if proxy.active > 0 {
            PhaseOf::StatusConnecting { raw }
        } else {
            PhaseOf::StatusReading { protocol, state: proxy.sleep_state_at(now) }
        }
    } else if next_state == 2 || next_state == 3 {
        PhaseOf::Probing { raw }
    } else {
        PhaseOf::Finished(Outcome::Failed(ProtocolError::UnexpectedNextState(next_state)))
    }
}

/// Where a packet of a status exchange that is answered here leads.
pub open spec fn answer(
    settings: Settings,
    protocol: i32,
    state: SleepState,
    payload: Seq<u8>,
) -> PhaseOf<Seq<u8>> {
    match status::status_exchange(settings, protocol, state, payload) {
        Ok(StatusReplyOf::Status(reply)) => PhaseOf::StatusReplying { protocol, state, reply },
        Ok(StatusReplyOf::Pong(reply)) => PhaseOf::PongSending { reply },
        Err(e) => PhaseOf::Finished(Outcome::Failed(e)),
    }
}

/// Where a player goes once the backend is being woken: it is held where the
/// settings say so, and turned away where they do not.
pub open spec fn asleep(settings: Settings, raw: Seq<u8>) -> PhaseOf<Seq<u8>> {
    if settings.login_hold_secs > 0 {
        PhaseOf::Holding { raw, secs: settings.login_hold_secs }
    } else {
        PhaseOf::TurnAwayDraining
    }
}

/// The phase after an event. One that does not answer the phase's action changes
/// nothing.
pub open spec fn next_phase(
    phase: PhaseOf<Seq<u8>>,
    proxy: ProxyState,
    settings: Settings,
    event: EventOf<Seq<u8>>,
    now: u128,
) -> PhaseOf<Seq<u8>> {
    let io_error = PhaseOf::Finished(Outcome::IoError);
    let done = PhaseOf::Finished(Outcome::Done);
    let too_slow = PhaseOf::Finished(Outcome::Failed(ProtocolError::StatusTimeout));
    match phase {
        PhaseOf::AwaitingHandshake => match event {
            EventOf::HandshakeRead { raw, protocol, next_state } => route(
                proxy,
                now,
                raw,
                protocol,
                next_state,
            ),
            EventOf::TimedOut => PhaseOf::Finished(
                Outcome::Failed(ProtocolError::HandshakeTimeout),
            ),
            EventOf::Failed(e) => PhaseOf::Finished(Outcome::Failed(e)),
            EventOf::IoError => io_error,
            _ => phase,
        },
        PhaseOf::StatusConnecting { raw } => match event {
            EventOf::Done => PhaseOf::StatusForwarding { raw },
            EventOf::IoError => io_error,
            _ => phase,
        },
        PhaseOf::StatusForwarding { .. } => match event {
            EventOf::Done => PhaseOf::StatusRelaying,
            EventOf::IoError => io_error,
            _ => phase,
        },
        PhaseOf::StatusRelaying => match event {
            EventOf::Done | EventOf::IoError => done,
            _ => phase,
        },
        PhaseOf::StatusReading { protocol, state } => match event {
            EventOf::PacketRead(payload) => answer(settings, protocol, state, payload),
            EventOf::Failed(e) => PhaseOf::Finished(Outcome::Failed(e)),
            EventOf::IoError => io_error,
            EventOf::TimedOut => too_slow,
            _ => phase,
        },
        PhaseOf::StatusReplying { protocol, state, .. } => match event {
            EventOf::Done => PhaseOf::StatusReading { protocol, state },
            EventOf::IoError => io_error,
            EventOf::TimedOut => too_slow,
            _ => phase,
        },
        PhaseOf::PongSending { .. } => match event {
            EventOf::Done => PhaseOf::PongFlushing,
            EventOf::IoError => io_error,
            EventOf::TimedOut => too_slow,
            _ => phase,
        },
        PhaseOf::PongFlushing => match event {
            EventOf::Done => done,
            EventOf::IoError => io_error,
            EventOf::TimedOut => too_slow,
            _ => phase,
        },
        PhaseOf::Probing { raw } => match event {
            EventOf::Ready => PhaseOf::LoginConnecting { raw, held: false },
            EventOf::NotReady => if proxy.wake_under_way() {
                asleep(settings, raw)
            } else {
                PhaseOf::WakeStarting { raw }
            },
            _ => phase,
        },
        PhaseOf::WakeStarting { raw } => match event {
            EventOf::Done => asleep(settings, raw),
            _ => phase,
        },
        PhaseOf::Holding { raw, .. } => match event {
            EventOf::Ready => PhaseOf::LoginConnecting { raw, held: true },
            EventOf::TimedOut => PhaseOf::TurnAwayDraining,
            _ => phase,
        },
        PhaseOf::LoginConnecting { raw, .. } => match event {
            EventOf::Done => PhaseOf::LoginReplaying { raw },
            EventOf::IoError => io_error,
            _ => phase,
        },
        PhaseOf::LoginReplaying { .. } => match event {
            EventOf::Done => PhaseOf::LoginRelaying,
            EventOf::IoError => io_error,
            _ => phase,
        },
        PhaseOf::LoginRelaying => match event {
            EventOf::Done => done,
            EventOf::IoError => io_error,
            _ => phase,
        },
        PhaseOf::TurnAwayDraining => match event {
            EventOf::Done => PhaseOf::TurnAwaySending {
                reply: disconnect_packet(wake_message()),
            },
            _ => phase,
        },
        PhaseOf::TurnAwaySending { .. } => match event {
            EventOf::Done => PhaseOf::TurnAwayFlushing,
            EventOf::IoError => io_error,
            _ => phase,
        },
        PhaseOf::TurnAwayFlushing => match event {
            EventOf::Done => PhaseOf::TurnAwayClosing,
            EventOf::IoError => io_error,
            _ => phase,
        },
        PhaseOf::TurnAwayClosing => match event {
            EventOf::Done => PhaseOf::TurnAwayLingering,
            _ => phase,
        },
        PhaseOf::TurnAwayLingering => match event {
            EventOf::Done => done,
            _ => phase,
        },
        PhaseOf::Finished(_) => phase,
    }
}

/// The connection is one of those that [`ProxyState::active`] counts.
pub open spec fn is_playing<B>(phase: PhaseOf<B>) -> bool {
    phase is LoginReplaying || phase is LoginRelaying
}

/// What the connections share after an event: it changes when a login finds the
/// backend asleep, when a player's connection to the backend opens, and when it
/// ends; at no other time.
pub open spec fn next_proxy(
    phase: PhaseOf<Seq<u8>>,
    proxy: ProxyState,
    event: EventOf<Seq<u8>>,
    now: u128,
) -> ProxyState {
    if phase is Probing && event is NotReady {
        proxy.after_wake_call()
    } else if is_login(phase, event) {
        proxy.after_login(phase->LoginConnecting_held, now)
    } else if is_logout(phase, event) {
        proxy.after_logout(now)
    } else {
        proxy
    }
}

/// The event lets a player in.
pub open spec fn is_login(phase: PhaseOf<Seq<u8>>, event: EventOf<Seq<u8>>) -> bool {
    phase is LoginConnecting && event is Done
}

/// The event ends a player's connection.
pub open spec fn is_logout(phase: PhaseOf<Seq<u8>>, event: EventOf<Seq<u8>>) -> bool {
    ||| phase is LoginReplaying && event is IoError
    ||| phase is LoginRelaying && (event is Done || event is IoError)
}

/// The count of players can follow the event.
pub open spec fn countable(
    phase: PhaseOf<Seq<u8>>,
    proxy: ProxyState,
    event: EventOf<Seq<u8>>,
) -> bool {
    &&& is_login(phase, event) ==> proxy.active < usize::MAX
    &&& is_logout(phase, event) ==> proxy.active > 0
}

/// The phase is one of a status exchange that is answered here, all of which have
/// to be gone through within one time limit.
pub open spec fn is_timed_status<B>(phase: PhaseOf<B>) -> bool {
    ||| phase is StatusReading
    ||| phase is StatusReplying
    ||| phase is PongSending
    ||| phase is PongFlushing
}

/// How many seconds a phase and those that follow it may take together.
pub open spec fn time_limit(phase: PhaseOf<Seq<u8>>) -> Option<u64> {
    if is_timed_status(phase) {
        Some(STATUS_TIMEOUT_SECS)
    } else {
        None
    }
}

impl PhaseOf<Vec<u8>> {
    /// A client that has just connected.
    pub fn new() -> (conn: Self)
        ensures
            conn@ == PhaseOf::<Seq<u8>>::AwaitingHandshake,
    {
        PhaseOf::AwaitingHandshake
    }

    /// What is to be done next.
    pub fn action(&self) -> (action: Action<'_>)
        ensures
            action@ == action_of(self@),
    {
        match self {
            PhaseOf::AwaitingHandshake => ActionOf::ReadHandshake(HANDSHAKE_TIMEOUT_SECS),
            PhaseOf::StatusConnecting { .. } => ActionOf::ConnectBackend,
            PhaseOf::StatusForwarding { raw } => ActionOf::SendBackend(raw),
            PhaseOf::StatusRelaying => ActionOf::Relay,
            PhaseOf::StatusReading { .. } => ActionOf::ReadPacket(MAX_STATUS_PACKET_LEN),
            PhaseOf::StatusReplying { reply, .. } => ActionOf::SendClient(reply),
            PhaseOf::PongSending { reply } => ActionOf::SendClient(reply),
            PhaseOf::PongFlushing => ActionOf::FlushClient,
            PhaseOf::Probing { .. } => ActionOf::Probe(PROBE_TIMEOUT_SECS),
            PhaseOf::WakeStarting { .. } => ActionOf::SpawnWake(WAKE_DEADLINE_SECS),
            PhaseOf::Holding { secs, .. } => ActionOf::Hold(*secs),
            PhaseOf::LoginConnecting { .. } => ActionOf::ConnectBackend,
            PhaseOf::LoginReplaying { raw } => ActionOf::SendBackend(raw),
            PhaseOf::LoginRelaying => ActionOf::Relay,
            PhaseOf::TurnAwayDraining => ActionOf::DrainPacket(
                MAX_LOGIN_PACKET_LEN,
                LOGIN_DRAIN_MILLIS,
            ),
            PhaseOf::TurnAwaySending { reply } => ActionOf::SendClient(reply),
            PhaseOf::TurnAwayFlushing => ActionOf::FlushClient,
            PhaseOf::TurnAwayClosing => ActionOf::ShutdownClient,
            PhaseOf::TurnAwayLingering => ActionOf::Linger(LINGER_SECS),
            PhaseOf::Finished(outcome) => ActionOf::Finish(*outcome),
        }
    }

    /// How many seconds this phase and those that follow it may take together,
    /// counted from the first of them; `None` where each action has its own limit
    /// or none.
    pub fn time_limit_secs(&self) -> (limit: Option<u64>)
        ensures
            limit == if is_timed_status(*self) {
                Some(STATUS_TIMEOUT_SECS)
            } else {
                None
            },
            limit == time_limit(self@),
    {
        match self {
            PhaseOf::StatusReading { .. } => Some(STATUS_TIMEOUT_SECS),
            PhaseOf::StatusReplying { .. } => Some(STATUS_TIMEOUT_SECS),
            PhaseOf::PongSending { .. } => Some(STATUS_TIMEOUT_SECS),
            PhaseOf::PongFlushing => Some(STATUS_TIMEOUT_SECS),
            _ => None,
        }
    }

    /// Whether the count of players can follow the event.
    pub fn is_countable(&self, proxy: &ProxyState, event: &Event) -> (ok: bool)
        ensures
            ok == countable(self@, *proxy, event@),
    {
        match (self, event) {
            (PhaseOf::LoginConnecting { .. }, EventOf::Done) => proxy.active < usize::MAX,
            (PhaseOf::LoginReplaying { .. }, EventOf::IoError) => proxy.active > 0,
            (PhaseOf::LoginRelaying, EventOf::Done) => proxy.active > 0,
            (PhaseOf::LoginRelaying, EventOf::IoError) => proxy.active > 0,
            _ => true,
        }
    }

    /// Goes on after an event at `now`, and notes in `proxy` what the other
    /// connections have to know of it.
    pub fn step(
        self,
        proxy: &mut ProxyState,
        settings: &Settings,
        event: Event,
        now: u128,
    ) -> (next: Self)
        requires
            now + AWAKE_WINDOW_NANOS <= u128::MAX,
            countable(self@, *old(proxy), event@),
        ensures
            next@ == next_phase(self@, *old(proxy), *settings, event@, now),
            *final(proxy) == next_proxy(self@, *old(proxy), event@, now),
    {
        match self {
            PhaseOf::AwaitingHandshake => match event {
                EventOf::HandshakeRead { raw, protocol, next_state } => {
                    route_handshake(proxy, now, raw, protocol, next_state)
                },
                EventOf::TimedOut => failed(ProtocolError::HandshakeTimeout),
                EventOf::Failed(e) => failed(e),
                EventOf::IoError => io_failed(),
                _ => PhaseOf::AwaitingHandshake,
            },
            PhaseOf::StatusConnecting { raw } => match event {
                EventOf::Done => PhaseOf::StatusForwarding { raw },
                EventOf::IoError => io_failed(),
                _ => PhaseOf::StatusConnecting { raw },
            },
            PhaseOf::StatusForwarding { raw } => match event {
                EventOf::Done => PhaseOf::StatusRelaying,
                EventOf::IoError => io_failed(),
                _ => PhaseOf::StatusForwarding { raw },
            },
            PhaseOf::StatusRelaying => match event {
                EventOf::Done | EventOf::IoError => ended(),
                _ => PhaseOf::StatusRelaying,
            },
            PhaseOf::StatusReading { protocol, state } => match event {
                EventOf::PacketRead(payload) => {
                    answer_packet(settings, protocol, state, payload.as_slice())
                },
                EventOf::Failed(e) => failed(e),
                EventOf::IoError => io_failed(),
                EventOf::TimedOut => failed(ProtocolError::StatusTimeout),
                _ => PhaseOf::StatusReading { protocol, state },
            },
            PhaseOf::StatusReplying { protocol, state, reply } => match event {
                EventOf::Done => PhaseOf::StatusReading { protocol, state },
                EventOf::IoError => io_failed(),
                EventOf::TimedOut => failed(ProtocolError::StatusTimeout),
                _ => PhaseOf::StatusReplying { protocol, state, reply },
            },
            PhaseOf::PongSending { reply } => match event {
                EventOf::Done => PhaseOf::PongFlushing,
                EventOf::IoError => io_failed(),
                EventOf::TimedOut => failed(ProtocolError::StatusTimeout),
                _ => PhaseOf::PongSending { reply },
            },
            PhaseOf::PongFlushing => match event {
                EventOf::Done => ended(),
                EventOf::IoError => io_failed(),
                EventOf::TimedOut => failed(ProtocolError::StatusTimeout),
                _ => PhaseOf::PongFlushing,
            },
            PhaseOf::Probing { raw } => match event {
                EventOf::Ready => PhaseOf::LoginConnecting { raw, held: false },
                EventOf::NotReady => if proxy.spawn_wake() {
                    PhaseOf::WakeStarting { raw }
                } else {
                    hold_or_turn_away(settings, raw)
                },
                _ => PhaseOf::Probing { raw },
            },
            PhaseOf::WakeStarting { raw } => match event {
                EventOf::Done => hold_or_turn_away(settings, raw),
                _ => PhaseOf::WakeStarting { raw },
            },
            PhaseOf::Holding { raw, secs } => match event {
                EventOf::Ready => PhaseOf::LoginConnecting { raw, held: true },
                EventOf::TimedOut => PhaseOf::TurnAwayDraining,
                _ => PhaseOf::Holding { raw, secs },
            },
            PhaseOf::LoginConnecting { raw, held } => match event {
                EventOf::Done => {
                    proxy.begin_login(held, now);
                    PhaseOf::LoginReplaying { raw }
                },
                EventOf::IoError => io_failed(),
                _ => PhaseOf::LoginConnecting { raw, held },
            },
            PhaseOf::LoginReplaying { raw } => match event {
                EventOf::Done => PhaseOf::LoginRelaying,
                EventOf::IoError => {
                    proxy.end_login(now);
                    io_failed()
                },
                _ => PhaseOf::LoginReplaying { raw },
            },
            PhaseOf::LoginRelaying => match event {
                EventOf::Done => {
                    proxy.end_login(now);
                    ended()
                },
                EventOf::IoError => {
                    proxy.end_login(now);
                    io_failed()
                },
                _ => PhaseOf::LoginRelaying,
            },
            PhaseOf::TurnAwayDraining => match event {
                EventOf::Done => PhaseOf::TurnAwaySending {
                    reply: login_disconnect(r"\u00a7e\u26a1 The server was asleep \u2014 waking it up now!\n\u00a77Rejoin in ~30 seconds and you're in."),
                },
                _ => PhaseOf::TurnAwayDraining,
            },
            PhaseOf::TurnAwaySending { reply } => match event {
                EventOf::Done => PhaseOf::TurnAwayFlushing,
                EventOf::IoError => io_failed(),
                _ => PhaseOf::TurnAwaySending { reply },
            },
            PhaseOf::TurnAwayFlushing => match event {
                EventOf::Done => PhaseOf::TurnAwayClosing,
                EventOf::IoError => io_failed(),
                _ => PhaseOf::TurnAwayFlushing,
            },
            PhaseOf::TurnAwayClosing => match event {
                EventOf::Done => PhaseOf::TurnAwayLingering,
                _ => PhaseOf::TurnAwayClosing,
            },
            PhaseOf::TurnAwayLingering => match event {
                EventOf::Done => ended(),
                _ => PhaseOf::TurnAwayLingering,
            },
            PhaseOf::Finished(outcome) => PhaseOf::Finished(outcome),
        }
    }
}

/// The connection has ended as it should.
fn ended() -> (next: Connection)
    ensures
        next@ == PhaseOf::<Seq<u8>>::Finished(Outcome::Done),
{
    PhaseOf::Finished(Outcome::Done)
}

/// Reading or writing has failed.
fn io_failed() -> (next: Connection)
    ensures
        next@ == PhaseOf::<Seq<u8>>::Finished(Outcome::IoError),
{
    PhaseOf::Finished(Outcome::IoError)
}

/// The client has broken the protocol.
fn failed(e: ProtocolError) -> (next: Connection)
    ensures
        next@ == PhaseOf::<Seq<u8>>::Finished(Outcome::Failed(e)),
{
    PhaseOf::Finished(Outcome::Failed(e))
}

/// Goes where a handshake leads.
fn route_handshake(
    proxy: &ProxyState,
    now: u128,
    raw: Vec<u8>,
    protocol: i32,
    next_state: i32,
) -> (next: Connection)
    ensures
        next@ == route(*proxy, now, raw@, protocol, next_state),
{
    if next_state == 1 {
        if proxy.active > 0 {
            PhaseOf::StatusConnecting { raw }
        } else {
            PhaseOf::StatusReading { protocol, state: proxy.sleep_state(now) }
        }
    } else if next_state == 2 || next_state == 3 {
        PhaseOf::Probing { raw }
    } else {
        failed(ProtocolError::UnexpectedNextState(next_state))
    }
}

/// Goes where a packet of a status exchange leads.
fn answer_packet(
    settings: &Settings,
    protocol: i32,
    state: SleepState,
    payload: &[u8],
) -> (next: Connection)
    ensures
        next@ == answer(*settings, protocol, state, payload@),
{
    match reply_to_status_packet(settings, protocol, state, payload) {
        Ok(StatusReplyOf::Status(reply)) => PhaseOf::StatusReplying { protocol, state, reply },
        Ok(StatusReplyOf::Pong(reply)) => PhaseOf::PongSending { reply },
        Err(e) => failed(e),
    }
}

/// Goes where a player goes once the backend is being woken.
fn hold_or_turn_away(settings: &Settings, raw: Vec<u8>) -> (next: Connection)
    ensures
        next@ == asleep(*settings, raw@),
{
    if settings.login_hold_secs > 0 {
        PhaseOf::Holding { raw, secs: settings.login_hold_secs }
    } else {
        PhaseOf::TurnAwayDraining
    }
}

/// What a player who is turned away sees: two lines, each with a section sign and a
/// colour, a lightning sign in the first.
pub open spec fn shown_wake_message() -> Seq<char> {
    seq!['\u{a7}', 'e', '\u{26a1}'] + " The server was asleep "@ + seq!['\u{2014}']
        + " waking it up now!"@ + seq!['\n', '\u{a7}', '7']
        + "Rejoin in ~30 seconds and you're in."@
}

/// The first line of the message to a player who is turned away.
proof fn lemma_first_line_reads()
    ensures
        json::json_text(r"\u00a7e\u26a1 The server was asleep \u2014 waking it up now!"@) == Some(
            seq!['\u{a7}', 'e', '\u{26a1}'] + " The server was asleep "@ + seq!['\u{2014}']
                + " waking it up now!"@,
        ),
{
    reveal_strlit(r"\u00a7e\u26a1 The server was asleep \u2014 waking it up now!");
    reveal_strlit(r"\u00a7");
    json::lemma_single_escape(r"\u00a7"@);
    reveal_strlit("e");
    json::law_plain_text_is_unchanged("e"@);
    reveal_strlit(r"\u26a1");
    json::lemma_single_escape(r"\u26a1"@);
    reveal_strlit(" The server was asleep ");
    json::law_plain_text_is_unchanged(" The server was asleep "@);
    reveal_strlit(r"\u2014");
    json::lemma_single_escape(r"\u2014"@);
    reveal_strlit(" waking it up now!");
    json::law_plain_text_is_unchanged(" waking it up now!"@);
    let t0 = r"\u00a7"@;
    let t1 = t0 + "e"@;
    json::law_json_texts_join(t0, "e"@);
    let t2 = t1 + r"\u26a1"@;
    json::law_json_texts_join(t1, r"\u26a1"@);
    let t3 = t2 + " The server was asleep "@;
    json::law_json_texts_join(t2, " The server was asleep "@);
    let t4 = t3 + r"\u2014"@;
    json::law_json_texts_join(t3, r"\u2014"@);
    let t5 = t4 + " waking it up now!"@;
    json::law_json_texts_join(t4, " waking it up now!"@);
    assert(r"\u00a7e\u26a1 The server was asleep \u2014 waking it up now!"@ =~= t5);
    assert(seq!['\u{a7}'] + "e"@ + seq!['\u{26a1}'] =~= seq!['\u{a7}', 'e', '\u{26a1}']);
}

/// The line end and the second line of that message.
proof fn lemma_second_line_reads()
    ensures
        json::json_text(r"\n\u00a77Rejoin in ~30 seconds and you're in."@) == Some(
            seq!['\n', '\u{a7}', '7'] + "Rejoin in ~30 seconds and you're in."@,
        ),
{
    reveal_strlit(r"\n\u00a77Rejoin in ~30 seconds and you're in.");
    reveal_strlit(r"\n");
    json::lemma_single_escape(r"\n"@);
    reveal_strlit(r"\u00a7");
    json::lemma_single_escape(r"\u00a7"@);
    reveal_strlit("7");
    json::law_plain_text_is_unchanged("7"@);
    reveal_strlit("Rejoin in ~30 seconds and you're in.");
    json::law_plain_text_is_unchanged("Rejoin in ~30 seconds and you're in."@);
    let t0 = r"\n"@;
    let t1 = t0 + r"\u00a7"@;
    json::law_json_texts_join(t0, r"\u00a7"@);
    let t2 = t1 + "7"@;
    json::law_json_texts_join(t1, "7"@);
    let t3 = t2 + "Rejoin in ~30 seconds and you're in."@;
    json::law_json_texts_join(t2, "Rejoin in ~30 seconds and you're in."@);
    assert(r"\n\u00a77Rejoin in ~30 seconds and you're in."@ =~= t3);
    assert(seq!['\n'] + seq!['\u{a7}'] + "7"@ =~= seq!['\n', '\u{a7}', '7']);
}

/// The message to a player who is turned away is its two lines.
proof fn lemma_wake_message_lines()
    ensures
        wake_message() == r"\u00a7e\u26a1 The server was asleep \u2014 waking it up now!"@ + r"\n\u00a77Rejoin in ~30 seconds and you're in."@,
{
    reveal_strlit(r"\u00a7e\u26a1 The server was asleep \u2014 waking it up now!");
    reveal_strlit(r"\n\u00a77Rejoin in ~30 seconds and you're in.");
    reveal_strlit(r"\u00a7e\u26a1 The server was asleep \u2014 waking it up now!\n\u00a77Rejoin in ~30 seconds and you're in.");
    assert(wake_message() =~= r"\u00a7e\u26a1 The server was asleep \u2014 waking it up now!"@ + r"\n\u00a77Rejoin in ~30 seconds and you're in."@);
}

/// What a player is told who is turned away may stand inside a JSON string
/// literal, and reads there as what the player is to see.
pub proof fn law_wake_message_is_json_text()
    ensures
        json::json_text(wake_message()) is Some,
        json::json_text(wake_message()) == Some(shown_wake_message()),
{
    let first = r"\u00a7e\u26a1 The server was asleep \u2014 waking it up now!"@;
    let second = r"\n\u00a77Rejoin in ~30 seconds and you're in."@;
    lemma_first_line_reads();
    lemma_second_line_reads();
    lemma_wake_message_lines();
    json::law_json_texts_join(first, second);
    assert(json::json_text(first).unwrap() + json::json_text(second).unwrap()
        =~= shown_wake_message());
}

/// An object whose one member is a text reads as that.
proof fn lemma_text_object_reads(t: Seq<char>)
    requires
        json::json_text(t) is Some,
    ensures
        json::json_document(r#"{"text":""#@ + t + r#""}"#@) == Some(
            json::Json::Object(
                seq![("text"@, json::Json::Text(json::json_text(t).unwrap()))],
            ),
        ),
{
    reveal_strlit("text");
    json::law_plain_text_is_unchanged("text"@);
    let none = Seq::<char>::empty();
    let close = seq!['}'] + none;
    let literal = seq!['"'] + (t + (seq!['"'] + close));
    let value = json::Json::Text(json::json_text(t).unwrap());
    json::lemma_read_string(t, close);
    json::lemma_last_member("text"@, literal, value, none);
    json::lemma_read_object(json::member("text"@, literal), seq![("text"@, value)], none);
    reveal_strlit(r#"{"text":""#);
    reveal_strlit(r#""}"#);
    assert(r#"{"text":""#@ + t + r#""}"#@ =~= seq!['{'] + json::member("text"@, literal));
}

/// A disconnect packet has id zero and carries an object whose text is the one that
/// it was made for, put in as it stands. So the player sees that text as it reads
/// inside a JSON string literal. A packet past the largest length that can be
/// announced is out of scope.
pub proof fn law_disconnect_shows_text(t: Seq<char>)
    requires
        disconnect_packet(t).len() <= i32::MAX,
    ensures
        packet::carried_text(disconnect_packet(t)) matches Some((id, doc)) && id == 0 && doc
            == r#"{"text":""#@ + t + r#""}"#@ && (json::json_text(t) matches Some(shown)
            ==> json::json_document(doc) == Some(
            json::Json::Object(seq![("text"@, json::Json::Text(shown))]),
        )),
{
    packet::law_string_packet_carries_text(0, r#"{"text":""#@ + t + r#""}"#@);
    if json::json_text(t) is Some {
        lemma_text_object_reads(t);
    }
}

/// The packet that tells a player to come back can be announced by its length.
proof fn lemma_wake_packet_fits()
    ensures
        disconnect_packet(wake_message()).len() <= i32::MAX,
{
    reveal_strlit(r#"{"text":""#);
    reveal_strlit(r#""}"#);
    reveal_strlit(
        r"\u00a7e\u26a1 The server was asleep \u2014 waking it up now!\n\u00a77Rejoin in ~30 seconds and you're in.",
    );
    let doc = r#"{"text":""#@ + wake_message() + r#""}"#@;
    assert(utf8::is_ascii_chars(doc));
    utf8::is_ascii_chars_encode_utf8(doc);
    let bytes = utf8::encode_utf8(doc);
    varint::law_varint_length(0);
    varint::law_varint_length(bytes.len() as i32);
    varint::law_varint_length(packet::string_body(0, doc).len() as i32);
}

/// A player who is turned away is sent a disconnect packet that shows, once it is
/// read and its escapes are resolved, that the server was asleep and is being woken.
pub proof fn law_wake_packet_shows_message()
    ensures
        packet::carried_text(disconnect_packet(wake_message())) matches Some((id, doc)) && id == 0
            && json::json_document(doc) == Some(
            json::Json::Object(seq![("text"@, json::Json::Text(shown_wake_message()))]),
        ),
{
    lemma_wake_packet_fits();
    law_wake_message_is_json_text();
    law_disconnect_shows_text(wake_message());
}

} // verus!
