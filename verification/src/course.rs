//! The course of one connection: what holds along it, whatever comes, and whatever
//! the other connections do meanwhile.
use crate::connection;
use crate::connection::{
    ActionOf, EventOf, Outcome, PhaseOf, LINGER_SECS, LOGIN_DRAIN_MILLIS, MAX_LOGIN_PACKET_LEN,
};
use crate::error::ProtocolError;
use crate::json;
use crate::packet;
use crate::proxy::ProxyState;
use crate::settings::Settings;
use crate::status;
use crate::status::SleepState;
use crate::varint;
use crate::wake::WAKE_DEADLINE_SECS;
use vstd::prelude::*;

verus! {

/// An event, when it comes, and what the connections share by then.
pub struct Input {
    pub event: EventOf<Seq<u8>>,
    pub proxy: ProxyState,
    pub now: u128,
}

/// The phase that a connection in `phase` has reached after these inputs.
pub open spec fn phase_after(
    settings: Settings,
    phase: PhaseOf<Seq<u8>>,
    inputs: Seq<Input>,
) -> PhaseOf<Seq<u8>>
    decreases inputs.len(),
{
    if inputs.len() == 0 {
        phase
    } else {
        let input = inputs.last();
        connection::next_phase(
            phase_after(settings, phase, inputs.drop_last()),
            input.proxy,
            settings,
            input.event,
            input.now,
        )
    }
}

/// The action reaches the backend, which keeps it up or wakes it.
pub open spec fn reaches_backend(action: ActionOf<Seq<u8>>) -> bool {
    match action {
        ActionOf::ConnectBackend => true,
        ActionOf::SendBackend(_) => true,
        ActionOf::Relay => true,
        ActionOf::Probe(_) => true,
        ActionOf::SpawnWake(_) => true,
        ActionOf::Hold(_) => true,
        _ => false,
    }
}

/// The status exchange is answered here, or the connection has ended.
pub open spec fn is_local(phase: PhaseOf<Seq<u8>>) -> bool {
    connection::is_timed_status(phase) || phase is Finished
}

/// A status exchange that is answered here stays here.
proof fn lemma_local_stays_local(settings: Settings, phase: PhaseOf<Seq<u8>>, inputs: Seq<Input>)
    requires
        is_local(phase),
    ensures
        is_local(phase_after(settings, phase, inputs)),
    decreases inputs.len(),
{
    if inputs.len() > 0 {
        lemma_local_stays_local(settings, phase, inputs.drop_last());
    }
}

/// A status ping that comes while nobody plays never reaches the backend, and
/// leaves no trace in what the connections share: polling a server list does not
/// keep the backend up.
pub proof fn law_status_ping_leaves_backend_alone(
    settings: Settings,
    raw: Seq<u8>,
    protocol: i32,
    proxy: ProxyState,
    now: u128,
    inputs: Seq<Input>,
    last: Input,
)
    requires
        proxy.active == 0,
    ensures
        ({
            let opened = connection::next_phase(
                PhaseOf::AwaitingHandshake,
                proxy,
                settings,
                EventOf::HandshakeRead { raw, protocol, next_state: 1 },
                now,
            );
            let phase = phase_after(settings, opened, inputs);
            &&& !reaches_backend(connection::action_of(phase))
            &&& connection::next_proxy(phase, last.proxy, last.event, last.now) == last.proxy
        }),
{
    let opened = connection::next_phase(
        PhaseOf::AwaitingHandshake,
        proxy,
        settings,
        EventOf::HandshakeRead { raw, protocol, next_state: 1 },
        now,
    );
    lemma_local_stays_local(settings, opened, inputs);
}

/// A status exchange that is answered here starts with the handshake and ends with
/// the connection, so one time limit, set when it starts, is a limit on all of
/// it: running out of time in any of its phases ends the connection.
pub proof fn law_one_limit_for_status_exchange(
    settings: Settings,
    phase: PhaseOf<Seq<u8>>,
    input: Input,
)
    ensures
        ({
            let next = connection::next_phase(
                phase,
                input.proxy,
                settings,
                input.event,
                input.now,
            );
            let timed = connection::is_timed_status(phase);
            &&& connection::is_timed_status(next) && !timed ==> phase is AwaitingHandshake
            &&& timed ==> connection::is_timed_status(next) || next is Finished
            &&& timed && input.event is TimedOut ==> next == PhaseOf::<Seq<u8>>::Finished(
                Outcome::Failed(ProtocolError::StatusTimeout),
            )
        }),
{
}

/// A client whose handshake is refused is dropped: neither the backend nor what
/// the connections share is touched. A legacy ping is among these.
pub proof fn law_refused_handshake_is_dropped(
    settings: Settings,
    proxy: ProxyState,
    e: ProtocolError,
    now: u128,
    inputs: Seq<Input>,
)
    ensures
        ({
            let refused = EventOf::Failed(e);
            let dropped = connection::next_phase(
                PhaseOf::AwaitingHandshake,
                proxy,
                settings,
                refused,
                now,
            );
            &&& connection::next_proxy(PhaseOf::AwaitingHandshake, proxy, refused, now) == proxy
            &&& connection::action_of(phase_after(settings, dropped, inputs)) == ActionOf::<
                Seq<u8>,
            >::Finish(Outcome::Failed(e))
        }),
    decreases inputs.len(),
{
    if inputs.len() > 0 {
        law_refused_handshake_is_dropped(settings, proxy, e, now, inputs.drop_last());
    }
}

/// A connection that has ended stays ended, and changes nothing any more.
pub proof fn law_finished_is_final(
    settings: Settings,
    outcome: Outcome,
    inputs: Seq<Input>,
    last: Input,
)
    ensures
        phase_after(settings, PhaseOf::Finished(outcome), inputs) == PhaseOf::<Seq<u8>>::Finished(
            outcome,
        ),
        connection::next_proxy(PhaseOf::Finished(outcome), last.proxy, last.event, last.now)
            == last.proxy,
    decreases inputs.len(),
{
    if inputs.len() > 0 {
        law_finished_is_final(settings, outcome, inputs.drop_last(), last);
    }
}

/// Where the phase holds a handshake, it is this one.
pub open spec fn holds_only(phase: PhaseOf<Seq<u8>>, raw: Seq<u8>) -> bool {
    match phase {
        PhaseOf::AwaitingHandshake => false,
        PhaseOf::StatusConnecting { raw: r } => r == raw,
        PhaseOf::StatusForwarding { raw: r } => r == raw,
        PhaseOf::Probing { raw: r } => r == raw,
        PhaseOf::WakeStarting { raw: r } => r == raw,
        PhaseOf::Holding { raw: r, .. } => r == raw,
        PhaseOf::LoginConnecting { raw: r, .. } => r == raw,
        PhaseOf::LoginReplaying { raw: r } => r == raw,
        _ => true,
    }
}

/// The handshake that is held stays the same.
proof fn lemma_holds_only(
    settings: Settings,
    phase: PhaseOf<Seq<u8>>,
    raw: Seq<u8>,
    inputs: Seq<Input>,
)
    requires
        holds_only(phase, raw),
    ensures
        holds_only(phase_after(settings, phase, inputs), raw),
    decreases inputs.len(),
{
    if inputs.len() > 0 {
        lemma_holds_only(settings, phase, raw, inputs.drop_last());
    }
}

/// All that the proxy itself ever sends to the backend on a client's behalf is
/// that client's handshake, byte for byte.
pub proof fn law_backend_gets_handshake_verbatim(
    settings: Settings,
    raw: Seq<u8>,
    protocol: i32,
    next_state: i32,
    proxy: ProxyState,
    now: u128,
    inputs: Seq<Input>,
)
    ensures
        ({
            let opened = connection::next_phase(
                PhaseOf::AwaitingHandshake,
                proxy,
                settings,
                EventOf::HandshakeRead { raw, protocol, next_state },
                now,
            );
            connection::action_of(phase_after(settings, opened, inputs))
                matches ActionOf::SendBackend(bytes) ==> bytes == raw
        }),
{
    let opened = connection::next_phase(
        PhaseOf::AwaitingHandshake,
        proxy,
        settings,
        EventOf::HandshakeRead { raw, protocol, next_state },
        now,
    );
    lemma_holds_only(settings, opened, raw, inputs);
}

/// The connection is past the point where the backend has to have been ready.
pub open spec fn is_past_ready(phase: PhaseOf<Seq<u8>>) -> bool {
    phase is LoginConnecting || connection::is_playing(phase)
}

/// One of the inputs said that the backend serves.
pub open spec fn found_ready(inputs: Seq<Input>) -> bool {
    exists|i: int| 0 <= i < inputs.len() && (#[trigger] inputs[i]).event is Ready
}

/// No player is connected to the backend before it was found to serve.
pub proof fn law_login_waits_for_ready(settings: Settings, inputs: Seq<Input>)
    ensures
        is_past_ready(phase_after(settings, PhaseOf::AwaitingHandshake, inputs)) ==> found_ready(
            inputs,
        ),
    decreases inputs.len(),
{
    let phase = phase_after(settings, PhaseOf::AwaitingHandshake, inputs);
    if inputs.len() > 0 && is_past_ready(phase) {
        let before = inputs.drop_last();
        law_login_waits_for_ready(settings, before);
        if is_past_ready(phase_after(settings, PhaseOf::AwaitingHandshake, before)) {
            let i = choose|i: int| 0 <= i < before.len() && (#[trigger] before[i]).event is Ready;
            assert(inputs[i].event is Ready);
        } else {
            assert(inputs[inputs.len() - 1].event is Ready);
        }
    }
}

/// A player who finds the backend asleep sets off a wake, unless one is under
/// way, and is then held exactly where the settings say so; otherwise it is
/// turned away at once.
pub proof fn law_sleeping_backend_is_woken(
    settings: Settings,
    raw: Seq<u8>,
    proxy: ProxyState,
    now: u128,
    later: ProxyState,
    later_now: u128,
)
    ensures
        ({
            let probing = PhaseOf::Probing { raw };
            let asleep = connection::next_phase(probing, proxy, settings, EventOf::NotReady, now);
            let woken = if proxy.wake_under_way() {
                asleep
            } else {
                connection::next_phase(asleep, later, settings, EventOf::Done, later_now)
            };
            &&& connection::next_proxy(probing, proxy, EventOf::NotReady, now).waking
            &&& connection::next_proxy(probing, proxy, EventOf::NotReady, now).wake_running
            &&& !proxy.wake_under_way() <==> connection::action_of(asleep) == ActionOf::<
                Seq<u8>,
            >::SpawnWake(WAKE_DEADLINE_SECS)
            &&& settings.login_hold_secs > 0 ==> connection::action_of(woken) == ActionOf::<
                Seq<u8>,
            >::Hold(settings.login_hold_secs)
            &&& settings.login_hold_secs == 0 ==> woken is TurnAwayDraining
        }),
{
}

/// A player who is held either joins, once the backend serves, or is turned away
/// when the hold is over; there is no third way.
pub proof fn law_hold_ends_in_join_or_turn_away(
    settings: Settings,
    raw: Seq<u8>,
    secs: u64,
    input: Input,
)
    ensures
        ({
            let holding = PhaseOf::Holding { raw, secs };
            let next = connection::next_phase(
                holding,
                input.proxy,
                settings,
                input.event,
                input.now,
            );
            &&& input.event is Ready ==> next == (PhaseOf::LoginConnecting { raw, held: true })
            &&& input.event is TimedOut ==> next is TurnAwayDraining
            &&& !(input.event is Ready || input.event is TimedOut) ==> next == holding
        }),
{
}

/// A player who is turned away is told so: what it has sent is taken off the line
/// first, the message goes out and is flushed, this side is closed, and the
/// client gets time to close its own. In any other order the message could be
/// lost.
pub proof fn law_turn_away_order(settings: Settings, inputs: Seq<Input>)
    requires
        inputs.len() <= 5,
        forall|i: int| 0 <= i < inputs.len() ==> (#[trigger] inputs[i]).event is Done,
    ensures
        connection::action_of(phase_after(settings, PhaseOf::TurnAwayDraining, inputs)) == seq![
            ActionOf::DrainPacket(MAX_LOGIN_PACKET_LEN, LOGIN_DRAIN_MILLIS),
            ActionOf::SendClient(connection::disconnect_packet(connection::wake_message())),
            ActionOf::FlushClient,
            ActionOf::ShutdownClient,
            ActionOf::Linger(LINGER_SECS),
            ActionOf::Finish(Outcome::Done),
        ][inputs.len() as int],
    decreases inputs.len(),
{
    if inputs.len() > 0 {
        law_turn_away_order(settings, inputs.drop_last());
        assert(inputs[inputs.len() - 1].event is Done);
        lemma_turn_away_phase(settings, inputs.drop_last());
    }
}

/// The phase of a player who is being turned away.
proof fn lemma_turn_away_phase(settings: Settings, inputs: Seq<Input>)
    requires
        inputs.len() <= 5,
        forall|i: int| 0 <= i < inputs.len() ==> (#[trigger] inputs[i]).event is Done,
    ensures
        ({
            let phase = phase_after(settings, PhaseOf::TurnAwayDraining, inputs);
            &&& inputs.len() == 0 ==> phase is TurnAwayDraining
            &&& inputs.len() == 1 ==> phase is TurnAwaySending
            &&& inputs.len() == 2 ==> phase is TurnAwayFlushing
            &&& inputs.len() == 3 ==> phase is TurnAwayClosing
            &&& inputs.len() == 4 ==> phase is TurnAwayLingering
            &&& inputs.len() == 5 ==> phase is Finished
        }),
    decreases inputs.len(),
{
    if inputs.len() > 0 {
        lemma_turn_away_phase(settings, inputs.drop_last());
        assert(inputs[inputs.len() - 1].event is Done);
    }
}

/// A status request is answered with the status document, and the exchange goes
/// on; a ping is answered with its own content, and the exchange ends.
pub proof fn law_status_exchange_course(
    settings: Settings,
    protocol: i32,
    state: SleepState,
    content: Seq<u8>,
    a: Input,
    b: Input,
    c: Input,
)
    requires
        b.event is Done,
        c.event is Done,
    ensures
        ({
            let reading = PhaseOf::StatusReading { protocol, state };
            let request = EventOf::PacketRead(varint::encode_varint(0) + content);
            let ping = EventOf::PacketRead(varint::encode_varint(1) + content);
            let requested = connection::next_phase(reading, a.proxy, settings, request, a.now);
            let pinged = connection::next_phase(reading, a.proxy, settings, ping, a.now);
            let sent = connection::next_phase(pinged, b.proxy, settings, b.event, b.now);
            let flushed = connection::next_phase(sent, c.proxy, settings, c.event, c.now);
            &&& connection::action_of(requested) == ActionOf::SendClient(
                status::status_answer(settings, protocol, state),
            )
            &&& connection::next_phase(requested, b.proxy, settings, b.event, b.now) == reading
            &&& connection::action_of(pinged) == ActionOf::SendClient(
                packet::frame(varint::encode_varint(1) + content),
            )
            &&& connection::action_of(sent) == ActionOf::<Seq<u8>>::FlushClient
            &&& connection::action_of(flushed) == ActionOf::<Seq<u8>>::Finish(Outcome::Done)
        }),
{
    status::law_pong_echoes_ping(settings, protocol, state, content);
    let payload = varint::encode_varint(0) + content;
    varint::law_varint_round_trip(0, content);
    assert(payload.skip(0) =~= payload);
}

/// The event is a packet with this id.
pub open spec fn is_packet(event: EventOf<Seq<u8>>, id: i32) -> bool {
    event matches EventOf::PacketRead(payload) && (varint::varint_at(payload, 0) matches Ok((i, _))
        && i == id)
}

/// Status requests, each of which could be answered.
pub open spec fn are_requests(inputs: Seq<Input>) -> bool {
    forall|i: int|
        0 <= i < inputs.len() ==> if i % 2 == 0 {
            is_packet((#[trigger] inputs[i]).event, 0)
        } else {
            inputs[i].event is Done
        }
}

/// However many status requests come, each gets the status document of the state
/// that the backend was in at first, and the exchange is then where it was.
pub proof fn law_requests_answered_alike(
    settings: Settings,
    protocol: i32,
    state: SleepState,
    inputs: Seq<Input>,
)
    requires
        are_requests(inputs),
    ensures
        ({
            let reading = PhaseOf::StatusReading { protocol, state };
            let phase = phase_after(settings, reading, inputs);
            if inputs.len() % 2 == 0 {
                phase == reading
            } else {
                connection::action_of(phase) == ActionOf::SendClient(
                    status::status_answer(settings, protocol, state),
                ) && phase is StatusReplying && phase->StatusReplying_protocol == protocol
                    && phase->StatusReplying_state == state
            }
        }),
    decreases inputs.len(),
{
    if inputs.len() > 0 {
        let before = inputs.drop_last();
        assert forall|i: int| 0 <= i < before.len() implies if i % 2 == 0 {
            is_packet((#[trigger] before[i]).event, 0)
        } else {
            before[i].event is Done
        } by {
            assert(before[i] == inputs[i]);
        }
        law_requests_answered_alike(settings, protocol, state, before);
        let last = inputs[inputs.len() - 1];
        assert(last == inputs.last());
    }
}

/// After any number of answered status requests, a ping is answered with its own
/// content; once that is sent and flushed, the exchange is at its proper end.
pub proof fn law_ping_ends_exchange(
    settings: Settings,
    protocol: i32,
    state: SleepState,
    requests: Seq<Input>,
    content: Seq<u8>,
    ping: Input,
    sent: Input,
    flushed: Input,
)
    requires
        are_requests(requests),
        requests.len() % 2 == 0,
        ping.event == EventOf::PacketRead(varint::encode_varint(1) + content),
        sent.event is Done,
        flushed.event is Done,
    ensures
        ({
            let reading = PhaseOf::StatusReading { protocol, state };
            let s1 = requests.push(ping);
            let s2 = s1.push(sent);
            let s3 = s2.push(flushed);
            &&& connection::action_of(phase_after(settings, reading, s1)) == ActionOf::SendClient(
                packet::frame(varint::encode_varint(1) + content),
            )
            &&& connection::action_of(phase_after(settings, reading, s2)) == ActionOf::<
                Seq<u8>,
            >::FlushClient
            &&& phase_after(settings, reading, s3) == PhaseOf::<Seq<u8>>::Finished(Outcome::Done)
        }),
{
    let reading = PhaseOf::StatusReading { protocol, state };
    let s1 = requests.push(ping);
    let s2 = s1.push(sent);
    let s3 = s2.push(flushed);
    law_requests_answered_alike(settings, protocol, state, requests);
    status::law_pong_echoes_ping(settings, protocol, state, content);
    assert(s1.drop_last() =~= requests);
    assert(s2.drop_last() =~= s1);
    assert(s3.drop_last() =~= s2);
    assert(phase_after(settings, reading, s1) is PongSending);
    assert(phase_after(settings, reading, s2) is PongFlushing);
}

/// The answer to a ping was sent in the course of these inputs.
pub open spec fn pong_was_sent(
    settings: Settings,
    phase: PhaseOf<Seq<u8>>,
    inputs: Seq<Input>,
) -> bool {
    exists|i: int|
        0 <= i < inputs.len() && (#[trigger] inputs[i]).event is Done && phase_after(
            settings,
            phase,
            inputs.take(i),
        ) is PongSending
}

/// An exchange that is answered here comes to its proper end only once the answer
/// to a ping was sent.
pub proof fn law_exchange_done_means_pong_sent(
    settings: Settings,
    protocol: i32,
    state: SleepState,
    inputs: Seq<Input>,
)
    ensures
        ({
            let reading = PhaseOf::StatusReading { protocol, state };
            let phase = phase_after(settings, reading, inputs);
            phase is PongFlushing || phase == PhaseOf::<Seq<u8>>::Finished(Outcome::Done)
                ==> pong_was_sent(settings, reading, inputs)
        }),
    decreases inputs.len(),
{
    let reading = PhaseOf::StatusReading { protocol, state };
    let phase = phase_after(settings, reading, inputs);
    if inputs.len() > 0 && (phase is PongFlushing || phase == PhaseOf::<Seq<u8>>::Finished(
        Outcome::Done,
    )) {
        let before = inputs.drop_last();
        let last = inputs.len() - 1;
        let earlier = phase_after(settings, reading, before);
        law_exchange_done_means_pong_sent(settings, protocol, state, before);
        lemma_local_stays_local(settings, reading, before);
        if earlier is PongSending {
            assert(inputs.take(last) =~= before);
            assert(inputs[last].event is Done);
        } else {
            let i = choose|i: int|
                0 <= i < before.len() && (#[trigger] before[i]).event is Done && phase_after(
                    settings,
                    reading,
                    before.take(i),
                ) is PongSending;
            assert(before.take(i) =~= inputs.take(i));
            assert(inputs[i].event is Done);
        }
    }
}

/// The phase after one more input.
pub open spec fn onward(
    settings: Settings,
    phase: PhaseOf<Seq<u8>>,
    input: Input,
) -> PhaseOf<Seq<u8>> {
    connection::next_phase(phase, input.proxy, settings, input.event, input.now)
}

/// What the connections share after that input.
pub open spec fn shared_after(phase: PhaseOf<Seq<u8>>, input: Input) -> ProxyState {
    connection::next_proxy(phase, input.proxy, input.event, input.now)
}

/// Where the first input has brought a new connection.
pub open spec fn opened(settings: Settings, shake: Input) -> PhaseOf<Seq<u8>> {
    onward(settings, PhaseOf::AwaitingHandshake, shake)
}

/// The input is a handshake of a player who wants to join, whose bytes are `raw`.
pub open spec fn is_join(shake: Input, raw: Seq<u8>) -> bool {
    shake.event matches EventOf::HandshakeRead { raw: r, next_state, .. } && r == raw && (next_state
        == 2 || next_state == 3)
}

/// The input is a handshake of a status ping.
pub open spec fn is_ping(shake: Input, raw: Seq<u8>, protocol: i32) -> bool {
    shake.event == (EventOf::HandshakeRead { raw, protocol, next_state: 1 })
}

/// The event comes early enough for the awake window behind it.
pub open spec fn in_time(input: Input) -> bool {
    input.now + 540_000_000_000 <= u128::MAX
}

/// One player more is counted, and the backend is known to be up for nine minutes.
pub open spec fn counts_in(before: ProxyState, after: ProxyState, now: u128) -> bool {
    &&& after.active == before.active + 1
    &&& after.awake_until matches Some(t) && t == now + 540_000_000_000
    &&& after.wake_running == before.wake_running
}

/// One player less is counted, and the backend is known to be up for nine minutes.
pub open spec fn counts_out(before: ProxyState, after: ProxyState, now: u128) -> bool {
    &&& after.active == before.active - 1
    &&& after.awake_until matches Some(t) && t == now + 540_000_000_000
    &&& after.wake_running == before.wake_running
    &&& after.waking == before.waking
}

/// A player who joins while the backend serves is let through, whatever the settings
/// and whatever else is known: the backend is probed, connected to, given the
/// handshake, and then everything is relayed. The player is counted when the
/// connection to the backend opens, which also ends the waking, and counted out when
/// it ends; nothing else that is shared changes.
pub proof fn law_player_joins_serving_backend(
    settings: Settings,
    raw: Seq<u8>,
    shake: Input,
    ready: Input,
    connected: Input,
    replayed: Input,
    ended: Input,
)
    requires
        is_join(shake, raw),
        ready.event is Ready,
        connected.event is Done,
        replayed.event is Done,
        ended.event is Done || ended.event is IoError,
        connected.proxy.active < usize::MAX,
        in_time(connected),
        ended.proxy.active > 0,
        in_time(ended),
    ensures
        ({
            let start = PhaseOf::<Seq<u8>>::AwaitingHandshake;
            let probing = opened(settings, shake);
            let connecting = onward(settings, probing, ready);
            let replaying = onward(settings, connecting, connected);
            let relaying = onward(settings, replaying, replayed);
            let over = onward(settings, relaying, ended);
            &&& connection::action_of(start) == ActionOf::<Seq<u8>>::ReadHandshake(10)
            &&& connection::action_of(probing) == ActionOf::<Seq<u8>>::Probe(2)
            &&& connection::action_of(connecting) == ActionOf::<Seq<u8>>::ConnectBackend
            &&& connection::action_of(replaying) == ActionOf::SendBackend(raw)
            &&& connection::action_of(relaying) == ActionOf::<Seq<u8>>::Relay
            &&& connection::action_of(over) == ActionOf::<Seq<u8>>::Finish(
                if ended.event is Done {
                    Outcome::Done
                } else {
                    Outcome::IoError
                },
            )
            &&& shared_after(start, shake) == shake.proxy
            &&& shared_after(probing, ready) == ready.proxy
            &&& counts_in(connected.proxy, shared_after(connecting, connected), connected.now)
            &&& !shared_after(connecting, connected).waking
            &&& shared_after(replaying, replayed) == replayed.proxy
            &&& counts_out(ended.proxy, shared_after(relaying, ended), ended.now)
        }),
{
}

/// A player who finds the backend asleep has it woken: a wake task is started exactly
/// where none is under way, and the backend is said to be waking from then on. The
/// player is then held for as long as the settings say, and turned away where they
/// say nothing. Neither the count of players nor the awake window changes.
pub proof fn law_player_wakes_sleeping_backend(
    settings: Settings,
    raw: Seq<u8>,
    shake: Input,
    asleep: Input,
    started: Input,
)
    requires
        is_join(shake, raw),
        asleep.event is NotReady,
        started.event is Done,
    ensures
        ({
            let probing = opened(settings, shake);
            let found = onward(settings, probing, asleep);
            let under_way = asleep.proxy.waking || asleep.proxy.wake_running;
            let shared = shared_after(probing, asleep);
            let served = if under_way {
                found
            } else {
                onward(settings, found, started)
            };
            &&& connection::action_of(probing) == ActionOf::<Seq<u8>>::Probe(2)
            &&& shared.waking && shared.wake_running
            &&& shared.active == asleep.proxy.active
            &&& shared.awake_until == asleep.proxy.awake_until
            &&& !under_way ==> connection::action_of(found) == ActionOf::<Seq<u8>>::SpawnWake(120)
            &&& !under_way ==> shared_after(found, started) == started.proxy
            &&& connection::action_of(served) == if settings.login_hold_secs > 0 {
                ActionOf::<Seq<u8>>::Hold(settings.login_hold_secs)
            } else {
                ActionOf::<Seq<u8>>::DrainPacket(4096, 500)
            }
        }),
{
}

/// A player who is held is let through as soon as the backend serves, and stays with
/// the same handshake; the waking is left to the wake task to end. When the hold is
/// over first, the player is turned away.
pub proof fn law_held_player_joins_or_is_turned_away(
    settings: Settings,
    raw: Seq<u8>,
    shake: Input,
    asleep: Input,
    started: Input,
    ready: Input,
    late: Input,
    connected: Input,
    replayed: Input,
    ended: Input,
)
    requires
        settings.login_hold_secs > 0,
        is_join(shake, raw),
        asleep.event is NotReady,
        started.event is Done,
        ready.event is Ready,
        late.event is TimedOut,
        connected.event is Done,
        replayed.event is Done,
        ended.event is Done || ended.event is IoError,
        connected.proxy.active < usize::MAX,
        in_time(connected),
        ended.proxy.active > 0,
        in_time(ended),
    ensures
        ({
            let found = onward(settings, opened(settings, shake), asleep);
            let holding = if asleep.proxy.waking || asleep.proxy.wake_running {
                found
            } else {
                onward(settings, found, started)
            };
            let connecting = onward(settings, holding, ready);
            let replaying = onward(settings, connecting, connected);
            let relaying = onward(settings, replaying, replayed);
            let over = onward(settings, relaying, ended);
            let expired = onward(settings, holding, late);
            &&& connection::action_of(connecting) == ActionOf::<Seq<u8>>::ConnectBackend
            &&& connection::action_of(replaying) == ActionOf::SendBackend(raw)
            &&& connection::action_of(relaying) == ActionOf::<Seq<u8>>::Relay
            &&& connection::action_of(over) == ActionOf::<Seq<u8>>::Finish(
                if ended.event is Done {
                    Outcome::Done
                } else {
                    Outcome::IoError
                },
            )
            &&& shared_after(holding, ready) == ready.proxy
            &&& counts_in(connected.proxy, shared_after(connecting, connected), connected.now)
            &&& shared_after(connecting, connected).waking == connected.proxy.waking
            &&& shared_after(replaying, replayed) == replayed.proxy
            &&& counts_out(ended.proxy, shared_after(relaying, ended), ended.now)
            &&& connection::action_of(expired) == ActionOf::<Seq<u8>>::DrainPacket(4096, 500)
            &&& shared_after(holding, late) == late.proxy
        }),
{
}

/// Where a player's way to the backend breaks, the connection ends with that error.
/// Who could not be connected was never counted; who could is counted out.
pub proof fn law_broken_join_is_counted_out(
    settings: Settings,
    raw: Seq<u8>,
    shake: Input,
    ready: Input,
    connected: Input,
    broken: Input,
)
    requires
        is_join(shake, raw),
        ready.event is Ready,
        connected.event is Done,
        broken.event is IoError,
        broken.proxy.active > 0,
        in_time(broken),
    ensures
        ({
            let connecting = onward(settings, opened(settings, shake), ready);
            let replaying = onward(settings, connecting, connected);
            let failed = ActionOf::<Seq<u8>>::Finish(Outcome::IoError);
            &&& connection::action_of(onward(settings, connecting, broken)) == failed
            &&& shared_after(connecting, broken) == broken.proxy
            &&& connection::action_of(onward(settings, replaying, broken)) == failed
            &&& counts_out(broken.proxy, shared_after(replaying, broken), broken.now)
        }),
{
}

/// A player who finds the backend asleep and is not held is told so, and so is one
/// whose hold is over: what it has sent is taken off the line, a disconnect packet
/// goes out whose text, read and unescaped, says that the server was asleep, the
/// packet is flushed, and the connection is closed with time for the client to close
/// its side. Nothing that is shared changes by it.
pub proof fn law_turned_away_player_is_told(
    settings: Settings,
    draining: PhaseOf<Seq<u8>>,
    a: Input,
    b: Input,
    c: Input,
    d: Input,
    e: Input,
)
    requires
        connection::action_of(draining) is DrainPacket,
        a.event is Done,
        b.event is Done,
        c.event is Done,
        d.event is Done,
        e.event is Done,
    ensures
        ({
            let sending = onward(settings, draining, a);
            let flushing = onward(settings, sending, b);
            let closing = onward(settings, flushing, c);
            let lingering = onward(settings, closing, d);
            let over = onward(settings, lingering, e);
            &&& connection::action_of(draining) == ActionOf::<Seq<u8>>::DrainPacket(4096, 500)
            &&& connection::action_of(sending) matches ActionOf::SendClient(sent) && (
            packet::carried_text(sent) matches Some((id, doc)) && id == 0 && json::json_document(
                doc,
            ) == Some(
                json::Json::Object(
                    seq![("text"@, json::Json::Text(connection::shown_wake_message()))],
                ),
            ))
            &&& connection::action_of(flushing) == ActionOf::<Seq<u8>>::FlushClient
            &&& connection::action_of(closing) == ActionOf::<Seq<u8>>::ShutdownClient
            &&& connection::action_of(lingering) == ActionOf::<Seq<u8>>::Linger(5)
            &&& connection::action_of(over) == ActionOf::<Seq<u8>>::Finish(Outcome::Done)
            &&& shared_after(draining, a) == a.proxy
            &&& shared_after(sending, b) == b.proxy
            &&& shared_after(flushing, c) == c.proxy
            &&& shared_after(closing, d) == d.proxy
            &&& shared_after(lingering, e) == e.proxy
        }),
{
    connection::law_wake_packet_shows_message();
}

/// While someone plays, a status ping goes to the backend, whatever is known of the
/// backend and whatever the time is: it is connected to, given exactly the ping's
/// handshake, and then everything is relayed until it ends, be it by an error. A
/// backend that cannot be reached ends the connection. Nothing that is shared changes.
pub proof fn law_ping_is_forwarded_while_someone_plays(
    settings: Settings,
    raw: Seq<u8>,
    protocol: i32,
    shake: Input,
    connected: Input,
    sent: Input,
    ended: Input,
    broken: Input,
)
    requires
        is_ping(shake, raw, protocol),
        shake.proxy.active > 0,
        connected.event is Done,
        sent.event is Done,
        ended.event is Done || ended.event is IoError,
        broken.event is IoError,
    ensures
        ({
            let start = PhaseOf::<Seq<u8>>::AwaitingHandshake;
            let connecting = opened(settings, shake);
            let sending = onward(settings, connecting, connected);
            let relaying = onward(settings, sending, sent);
            let over = onward(settings, relaying, ended);
            let failed = ActionOf::<Seq<u8>>::Finish(Outcome::IoError);
            &&& connection::action_of(connecting) == ActionOf::<Seq<u8>>::ConnectBackend
            &&& connection::action_of(sending) == ActionOf::SendBackend(raw)
            &&& connection::action_of(relaying) == ActionOf::<Seq<u8>>::Relay
            &&& connection::action_of(over) == ActionOf::<Seq<u8>>::Finish(Outcome::Done)
            &&& connection::action_of(onward(settings, connecting, broken)) == failed
            &&& connection::action_of(onward(settings, sending, broken)) == failed
            &&& shared_after(start, shake) == shake.proxy
            &&& shared_after(connecting, connected) == connected.proxy
            &&& shared_after(sending, sent) == sent.proxy
            &&& shared_after(relaying, ended) == ended.proxy
            &&& shared_after(connecting, broken) == broken.proxy
            &&& shared_after(sending, broken) == broken.proxy
        }),
{
}

/// How the backend stands at `now`, by what is shared while nobody plays: waking
/// where it is said to be, else up before the end of the awake window, else asleep.
pub open spec fn standing(proxy: ProxyState, now: u128) -> SleepState {
    match (proxy.waking, proxy.awake_until) {
        (true, _) => SleepState::Waking,
        (false, Some(t)) if now < t => SleepState::AwakeEmpty,
        (false, _) => SleepState::Asleep,
    }
}

/// The bytes are a packet that shows, in a server list, the version that is set, the
/// protocol number `protocol`, nobody playing, and the message of the day of `state`.
pub open spec fn shows_status(
    sent: Seq<u8>,
    settings: Settings,
    protocol: i32,
    state: SleepState,
) -> bool {
    packet::carried_text(sent) matches Some((id, doc)) && id == 0 && json::json_document(doc)
        == Some(
        status::status_value(
            status::shown_version(settings.version.deep_view()),
            protocol,
            status::shown_motd(state, settings.motd.deep_view()),
        ),
    )
}

/// While nobody plays, a status ping is answered here, and told how the backend stood
/// when its handshake was read: that it is being woken, that it sleeps, or, where it
/// is up, what it says of itself. The client finds its own protocol number in the
/// answer.
pub proof fn law_ping_is_told_how_backend_stands(
    settings: Settings,
    raw: Seq<u8>,
    protocol: i32,
    shake: Input,
    request: Input,
)
    requires
        is_ping(shake, raw, protocol),
        shake.proxy.active == 0,
        is_packet(request.event, 0),
        status::version_is_readable(settings.version.deep_view()),
    ensures
        ({
            let reading = opened(settings, shake);
            let replying = onward(settings, reading, request);
            &&& connection::action_of(reading) == ActionOf::<Seq<u8>>::ReadPacket(128)
            &&& shared_after(PhaseOf::AwaitingHandshake, shake) == shake.proxy
            &&& connection::action_of(replying) matches ActionOf::SendClient(sent) && (sent.len()
                <= i32::MAX ==> shows_status(
                sent,
                settings,
                protocol,
                standing(shake.proxy, shake.now),
            ))
        }),
{
    let payload = request.event->PacketRead_0;
    status::law_status_request_is_answered(
        settings,
        protocol,
        standing(shake.proxy, shake.now),
        payload,
    );
}

/// A client that wants none of status, login and transfer is refused, and what it
/// wanted is named; one whose handshake does not come in time, or cannot be read, is
/// dropped for that.
pub proof fn law_other_clients_are_refused(settings: Settings, shake: Input)
    ensures
        ({
            let action = connection::action_of(opened(settings, shake));
            &&& shake.event matches EventOf::HandshakeRead { next_state, .. } ==> (next_state < 1
                || next_state > 3 ==> action == ActionOf::<Seq<u8>>::Finish(
                Outcome::Failed(ProtocolError::UnexpectedNextState(next_state)),
            ))
            &&& shake.event is TimedOut ==> action == ActionOf::<Seq<u8>>::Finish(
                Outcome::Failed(ProtocolError::HandshakeTimeout),
            )
            &&& shake.event is IoError ==> action == ActionOf::<Seq<u8>>::Finish(Outcome::IoError)
            &&& shake.event matches EventOf::Failed(e) ==> action == ActionOf::<Seq<u8>>::Finish(
                Outcome::Failed(e),
            )
            &&& shared_after(PhaseOf::AwaitingHandshake, shake) == shake.proxy
        }),
{
}

/// The event is one that can come of the action.
pub open spec fn answers(action: ActionOf<Seq<u8>>, event: EventOf<Seq<u8>>) -> bool {
    match action {
        ActionOf::ReadHandshake(_) => event is HandshakeRead || event is TimedOut || event is Failed
            || event is IoError,
        ActionOf::ConnectBackend | ActionOf::SendBackend(_) | ActionOf::Relay => event is Done
            || event is IoError,
        ActionOf::ReadPacket(_) => event is PacketRead || event is Failed || event is IoError,
        ActionOf::SendClient(_) | ActionOf::FlushClient => event is Done || event is IoError,
        ActionOf::Probe(_) => event is Ready || event is NotReady,
        ActionOf::Hold(_) => event is Ready || event is TimedOut,
        ActionOf::SpawnWake(_) | ActionOf::DrainPacket(_, _) | ActionOf::ShutdownClient => event
            is Done,
        ActionOf::Linger(_) => event is Done,
        ActionOf::Finish(_) => false,
    }
}

/// An event that can come neither of what was to be done nor of a time limit changes
/// nothing; and what was to be done, if it is read or written, ends the connection
/// with the error that it ends in.
pub proof fn law_only_answers_matter(settings: Settings, phase: PhaseOf<Seq<u8>>, input: Input)
    ensures
        ({
            let action = connection::action_of(phase);
            let next = onward(settings, phase, input);
            let timed = connection::time_limit(phase) is Some && input.event is TimedOut;
            &&& !answers(action, input.event) && !timed ==> next == phase && shared_after(
                phase,
                input,
            ) == input.proxy
            &&& timed ==> connection::action_of(next) == ActionOf::<Seq<u8>>::Finish(
                Outcome::Failed(ProtocolError::StatusTimeout),
            )
            &&& (action is ReadPacket || action is SendClient || action is FlushClient)
                && input.event is IoError ==> connection::action_of(next) == ActionOf::<
                Seq<u8>,
            >::Finish(Outcome::IoError)
            &&& action is ReadPacket ==> (input.event matches EventOf::Failed(e)
                ==> connection::action_of(next) == ActionOf::<Seq<u8>>::Finish(Outcome::Failed(e)))
        }),
{
}

/// What the connections share changes only when a probe finds the backend asleep, and
/// when a player's connection to it opens or ends.
pub proof fn law_shared_state_changes_by_players_only(phase: PhaseOf<Seq<u8>>, input: Input)
    ensures
        shared_after(phase, input) != input.proxy ==> {
            let action = connection::action_of(phase);
            ||| action is Probe && input.event is NotReady
            ||| action is ConnectBackend && input.event is Done
            ||| action is SendBackend && input.event is IoError
            ||| action is Relay && (input.event is Done || input.event is IoError)
        },
{
}

/// The time limit of ten seconds is on every step of a status exchange that is
/// answered here, up to its end.
pub proof fn law_answered_ping_is_timed(
    settings: Settings,
    raw: Seq<u8>,
    protocol: i32,
    shake: Input,
    inputs: Seq<Input>,
)
    requires
        is_ping(shake, raw, protocol),
        shake.proxy.active == 0,
    ensures
        ({
            let phase = phase_after(settings, opened(settings, shake), inputs);
            connection::action_of(phase) is Finish || connection::time_limit(phase) == Some(10u64)
        }),
{
    lemma_local_stays_local(settings, opened(settings, shake), inputs);
}

/// The phase has no time limit that it shares with others.
spec fn is_untimed(phase: PhaseOf<Seq<u8>>) -> bool {
    !(phase is AwaitingHandshake) && connection::time_limit(phase) is None
}

/// What is not timed stays so.
proof fn lemma_untimed_stays_untimed(
    settings: Settings,
    phase: PhaseOf<Seq<u8>>,
    inputs: Seq<Input>,
)
    requires
        is_untimed(phase),
    ensures
        is_untimed(phase_after(settings, phase, inputs)),
    decreases inputs.len(),
{
    if inputs.len() > 0 {
        lemma_untimed_stays_untimed(settings, phase, inputs.drop_last());
    }
}

/// No such limit is on a player, nor on a ping that goes to the backend: they may take
/// as long as the backend lets them.
pub proof fn law_players_are_not_timed(
    settings: Settings,
    raw: Seq<u8>,
    protocol: i32,
    shake: Input,
    inputs: Seq<Input>,
)
    requires
        is_join(shake, raw) || is_ping(shake, raw, protocol) && shake.proxy.active > 0,
    ensures
        connection::time_limit(PhaseOf::AwaitingHandshake) is None,
        connection::time_limit(phase_after(settings, opened(settings, shake), inputs)) is None,
{
    lemma_untimed_stays_untimed(settings, opened(settings, shake), inputs);
}

/// In a status exchange that is answered here, a packet that is neither a request nor a
/// ping ends the connection, and its id is named; so does one whose id cannot be read.
/// Nothing that is shared changes.
pub proof fn law_other_packet_ends_exchange(
    settings: Settings,
    raw: Seq<u8>,
    protocol: i32,
    shake: Input,
    input: Input,
    payload: Seq<u8>,
)
    requires
        is_ping(shake, raw, protocol),
        shake.proxy.active == 0,
        input.event == EventOf::PacketRead(payload),
    ensures
        ({
            let reading = opened(settings, shake);
            let action = connection::action_of(onward(settings, reading, input));
            &&& varint::varint_at(payload, 0) matches Ok((id, _)) ==> (id != 0 && id != 1 ==> action
                == ActionOf::<Seq<u8>>::Finish(
                Outcome::Failed(ProtocolError::UnexpectedStatusPacket(id)),
            ))
            &&& varint::varint_at(payload, 0) matches Err(e) ==> action == ActionOf::<
                Seq<u8>,
            >::Finish(Outcome::Failed(e))
            &&& shared_after(reading, input) == input.proxy
        }),
{
}

} // verus!
