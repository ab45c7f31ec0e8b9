//! All connections of the proxy at once: what holds of them together, in whatever
//! order their events come.
use crate::connection;
use crate::connection::{ActionOf, EventOf, PhaseOf};
use crate::course;
use crate::course::Input;
use crate::proxy::{ProxyState, AWAKE_WINDOW_NANOS, IDLE_WINDOW_NANOS};
use crate::settings::Settings;
use crate::status;
use crate::status::SleepState;
use vstd::prelude::*;

verus! {

/// Every connection there was, every wake task that was asked for and has not
/// ended, and what they share.
pub struct System {
    pub conns: Seq<PhaseOf<Seq<u8>>>,
    pub wakes: nat,
    pub proxy: ProxyState,
}

/// What can happen.
pub enum Step {
    /// A client connects.
    Accept,
    /// An event comes to a connection.
    Conn { i: int, event: EventOf<Seq<u8>>, now: u128 },
    /// A wake task ends.
    WakeEnds { came_up: bool, now: u128 },
}

/// No client, and nothing known.
pub open spec fn start() -> System {
    System { conns: Seq::empty(), wakes: 0, proxy: ProxyState::initial() }
}

/// The step can happen. A player past the largest count cannot be counted, and no
/// time is near the end of time.
pub open spec fn possible(s: System, step: Step) -> bool {
    match step {
        Step::Accept => true,
        Step::Conn { i, event, now } => {
            &&& 0 <= i < s.conns.len()
            &&& connection::is_login(s.conns[i], event) ==> s.proxy.active < usize::MAX
            &&& now + AWAKE_WINDOW_NANOS <= u128::MAX
        },
        Step::WakeEnds { now, .. } => {
            &&& s.wakes > 0
            &&& now + AWAKE_WINDOW_NANOS <= u128::MAX
        },
    }
}

/// What comes of a step.
pub open spec fn apply(settings: Settings, s: System, step: Step) -> System {
    match step {
        Step::Accept => System { conns: s.conns.push(PhaseOf::AwaitingHandshake), ..s },
        Step::Conn { i, event, now } => {
            let phase = s.conns[i];
            let next = connection::next_phase(phase, s.proxy, settings, event, now);
            System {
                conns: s.conns.update(i, next),
                wakes: if !(phase is WakeStarting) && next is WakeStarting {
                    s.wakes + 1
                } else {
                    s.wakes
                },
                proxy: connection::next_proxy(phase, s.proxy, event, now),
            }
        },
        Step::WakeEnds { came_up, now } => System {
            wakes: (s.wakes - 1) as nat,
            proxy: s.proxy.after_wake(came_up, now),
            ..s
        },
    }
}

/// What comes of a series of steps.
pub open spec fn run(settings: Settings, steps: Seq<Step>) -> System
    decreases steps.len(),
{
    if steps.len() == 0 {
        start()
    } else {
        apply(settings, run(settings, steps.drop_last()), steps.last())
    }
}

/// Each step can happen when its turn comes.
pub open spec fn runs(settings: Settings, steps: Seq<Step>) -> bool
    decreases steps.len(),
{
    steps.len() == 0 || {
        &&& runs(settings, steps.drop_last())
        &&& possible(run(settings, steps.drop_last()), steps.last())
    }
}

/// How many of the connections play.
pub open spec fn players(conns: Seq<PhaseOf<Seq<u8>>>) -> nat
    decreases conns.len(),
{
    if conns.len() == 0 {
        0
    } else {
        players(conns.drop_last()) + if connection::is_playing(conns.last()) {
            1nat
        } else {
            0
        }
    }
}

/// Changing one connection changes the count by what that connection counts.
proof fn lemma_players_update(conns: Seq<PhaseOf<Seq<u8>>>, i: int, phase: PhaseOf<Seq<u8>>)
    requires
        0 <= i < conns.len(),
    ensures
        players(conns.update(i, phase)) + (if connection::is_playing(conns[i]) {
            1nat
        } else {
            0
        }) == players(conns) + (if connection::is_playing(phase) {
            1nat
        } else {
            0
        }),
    decreases conns.len(),
{
    let last = conns.len() - 1;
    if i == last {
        assert(conns.update(i, phase).drop_last() =~= conns.drop_last());
    } else {
        lemma_players_update(conns.drop_last(), i, phase);
        assert(conns.update(i, phase).drop_last() =~= conns.drop_last().update(i, phase));
    }
}

/// Someone who plays is counted.
proof fn lemma_player_counted(conns: Seq<PhaseOf<Seq<u8>>>, i: int)
    requires
        0 <= i < conns.len(),
        connection::is_playing(conns[i]),
    ensures
        players(conns) > 0,
    decreases conns.len(),
{
    if i < conns.len() - 1 {
        lemma_player_counted(conns.drop_last(), i);
    }
}

/// Where someone is counted, someone plays.
proof fn lemma_counted_plays(conns: Seq<PhaseOf<Seq<u8>>>)
    requires
        players(conns) > 0,
    ensures
        exists|i: int| 0 <= i < conns.len() && connection::is_playing(#[trigger] conns[i]),
    decreases conns.len(),
{
    if connection::is_playing(conns.last()) {
        assert(connection::is_playing(conns[conns.len() - 1]));
    } else {
        lemma_counted_plays(conns.drop_last());
        let i = choose|i: int|
            0 <= i < conns.drop_last().len() && connection::is_playing(
                #[trigger] conns.drop_last()[i],
            );
        assert(connection::is_playing(conns[i]));
    }
}

/// The count of active connections is the number of players, however their
/// logins and logouts interleave. So it never runs below zero: whoever leaves
/// was counted.
pub proof fn law_active_counts_players(settings: Settings, steps: Seq<Step>)
    requires
        runs(settings, steps),
    ensures
        ({
            let s = run(settings, steps);
            &&& s.proxy.active == players(s.conns)
            &&& forall|i: int|
                0 <= i < s.conns.len() && connection::is_playing(#[trigger] s.conns[i])
                    ==> s.proxy.active > 0
        }),
    decreases steps.len(),
{
    let s = run(settings, steps);
    if steps.len() > 0 {
        let before = run(settings, steps.drop_last());
        law_active_counts_players(settings, steps.drop_last());
        match steps.last() {
            Step::Accept => {
                assert(s.conns.drop_last() =~= before.conns);
            },
            Step::Conn { i, event, now } => {
                lemma_players_update(
                    before.conns,
                    i,
                    connection::next_phase(before.conns[i], before.proxy, settings, event, now),
                );
                assert(connection::is_playing(before.conns[i]) ==> before.proxy.active > 0);
            },
            Step::WakeEnds { .. } => {},
        }
    }
    assert forall|i: int|
        0 <= i < s.conns.len() && connection::is_playing(
            #[trigger] s.conns[i],
        ) implies s.proxy.active > 0 by {
        lemma_player_counted(s.conns, i);
    }
}

/// The backend is pinged to keep it up exactly while someone plays.
pub proof fn law_keepalive_only_with_players(settings: Settings, steps: Seq<Step>)
    requires
        runs(settings, steps),
    ensures
        ({
            let s = run(settings, steps);
            &&& s.proxy.active > 0 <==> exists|i: int|
                0 <= i < s.conns.len() && connection::is_playing(#[trigger] s.conns[i])
            &&& s.proxy.keeps_alive() <==> exists|i: int|
                0 <= i < s.conns.len() && ((#[trigger] s.conns[i]) is LoginReplaying || s.conns[i]
                    is LoginRelaying)
        }),
{
    law_active_counts_players(settings, steps);
    let s = run(settings, steps);
    if s.proxy.active > 0 {
        lemma_counted_plays(s.conns);
        let i = choose|i: int|
            0 <= i < s.conns.len() && connection::is_playing(#[trigger] s.conns[i]);
        assert(s.conns[i] is LoginReplaying || s.conns[i] is LoginRelaying);
    }
    if exists|i: int|
        0 <= i < s.conns.len() && ((#[trigger] s.conns[i]) is LoginReplaying || s.conns[i]
            is LoginRelaying) {
        let i = choose|i: int|
            0 <= i < s.conns.len() && ((#[trigger] s.conns[i]) is LoginReplaying || s.conns[i]
                is LoginRelaying);
        assert(connection::is_playing(s.conns[i]));
    }
}

/// However many players join, and whatever they find, at most one wake task is
/// under way: one where the state says that it runs, and else none. The backend
/// is said to be waking only while it runs.
pub proof fn law_at_most_one_wake(settings: Settings, steps: Seq<Step>)
    requires
        runs(settings, steps),
    ensures
        ({
            let s = run(settings, steps);
            &&& s.wakes == if s.proxy.wake_running {
                1nat
            } else {
                0
            }
            &&& s.proxy.waking ==> s.proxy.wake_running
        }),
    decreases steps.len(),
{
    if steps.len() > 0 {
        law_at_most_one_wake(settings, steps.drop_last());
    }
}

/// Every step of a connection that can happen is one that the count of players
/// can follow.
pub proof fn law_possible_steps_are_countable(settings: Settings, steps: Seq<Step>, step: Step)
    requires
        runs(settings, steps),
        possible(run(settings, steps), step),
    ensures
        step matches Step::Conn { i, event, .. } ==> connection::countable(
            run(settings, steps).conns[i],
            run(settings, steps).proxy,
            event,
        ),
{
    law_active_counts_players(settings, steps);
}

/// When the step saw the backend up: a wake that came up, a player's connection to
/// the backend that opened or ended.
pub open spec fn sighting(s: System, step: Step) -> Option<u128> {
    match step {
        Step::Accept => None,
        Step::Conn { i, event, now } => match (s.conns[i], event) {
            (PhaseOf::LoginConnecting { .. }, EventOf::Done) => Some(now),
            (PhaseOf::LoginReplaying { .. }, EventOf::IoError) => Some(now),
            (PhaseOf::LoginRelaying, EventOf::Done) => Some(now),
            (PhaseOf::LoginRelaying, EventOf::IoError) => Some(now),
            _ => None,
        },
        Step::WakeEnds { came_up, now } => if came_up {
            Some(now)
        } else {
            None
        },
    }
}

/// When the backend was last seen up.
pub open spec fn last_sighting(settings: Settings, steps: Seq<Step>) -> Option<u128>
    decreases steps.len(),
{
    if steps.len() == 0 {
        None
    } else {
        match sighting(run(settings, steps.drop_last()), steps.last()) {
            Some(now) => Some(now),
            None => last_sighting(settings, steps.drop_last()),
        }
    }
}

/// The backend is taken to be up until the awake window has passed since it was
/// last seen up; before it was ever seen up, it is not taken to be.
pub proof fn law_awake_since_last_sighting(settings: Settings, steps: Seq<Step>)
    requires
        runs(settings, steps),
    ensures
        run(settings, steps).proxy.awake_until == match last_sighting(settings, steps) {
            Some(seen) => Some((seen + AWAKE_WINDOW_NANOS) as u128),
            None => None,
        },
        last_sighting(settings, steps) matches Some(seen) ==> seen + AWAKE_WINDOW_NANOS
            <= u128::MAX,
    decreases steps.len(),
{
    if steps.len() > 0 {
        law_awake_since_last_sighting(settings, steps.drop_last());
    }
}

/// A sighting is that of one of the steps.
proof fn lemma_last_sighting_happened(settings: Settings, steps: Seq<Step>)
    ensures
        last_sighting(settings, steps) matches Some(seen) ==> exists|k: int|
            0 <= k < steps.len() && sighting(run(settings, steps.take(k)), #[trigger] steps[k])
                == Some(seen),
    decreases steps.len(),
{
    if let Some(seen) = last_sighting(settings, steps) {
        let before = steps.drop_last();
        let last = steps.len() - 1;
        if sighting(run(settings, before), steps.last()) == Some(seen) {
            assert(steps.take(last) =~= before);
            assert(sighting(run(settings, steps.take(last)), steps[last]) == Some(seen));
        } else {
            lemma_last_sighting_happened(settings, before);
            let k = choose|k: int|
                0 <= k < before.len() && sighting(
                    run(settings, before.take(k)),
                    #[trigger] before[k],
                ) == Some(seen);
            assert(before.take(k) =~= steps.take(k));
            assert(sighting(run(settings, steps.take(k)), steps[k]) == Some(seen));
        }
    }
}

/// A status ping is told that the backend is up only where a wake came up, or a
/// player's connection opened or ended, within the awake window before: too short
/// a time for the backend to have fallen asleep.
pub proof fn law_up_means_seen_lately(settings: Settings, steps: Seq<Step>, now: u128)
    requires
        runs(settings, steps),
        run(settings, steps).proxy.sleep_state_at(now) == SleepState::AwakeEmpty,
    ensures
        exists|k: int|
            0 <= k < steps.len() && (sighting(run(settings, steps.take(k)), #[trigger] steps[k])
                matches Some(seen) && now < seen + AWAKE_WINDOW_NANOS && now < seen
                + IDLE_WINDOW_NANOS),
{
    law_awake_since_last_sighting(settings, steps);
    lemma_last_sighting_happened(settings, steps);
    let seen = last_sighting(settings, steps).unwrap();
    let k = choose|k: int|
        0 <= k < steps.len() && sighting(run(settings, steps.take(k)), #[trigger] steps[k])
            == Some(seen);
    assert(sighting(run(settings, steps.take(k)), steps[k]) == Some(seen));
}

/// What the step makes of the word that the backend is waking: a login that finds it
/// asleep gives it out; the end of a wake task takes it back, and so does a player
/// whose probe found the backend serving and who is connected to it.
pub open spec fn waking_word(s: System, step: Step) -> Option<bool> {
    match step {
        Step::Accept => None,
        Step::Conn { i, event, .. } => match (s.conns[i], event) {
            (PhaseOf::Probing { .. }, EventOf::NotReady) => Some(true),
            (PhaseOf::LoginConnecting { held, .. }, EventOf::Done) if !held => Some(false),
            _ => None,
        },
        Step::WakeEnds { .. } => Some(false),
    }
}

/// The last word on whether the backend is waking.
pub open spec fn last_waking_word(settings: Settings, steps: Seq<Step>) -> bool
    decreases steps.len(),
{
    if steps.len() == 0 {
        false
    } else {
        match waking_word(run(settings, steps.drop_last()), steps.last()) {
            Some(word) => word,
            None => last_waking_word(settings, steps.drop_last()),
        }
    }
}

/// The backend is said to be waking exactly where the last word on it was so.
pub proof fn law_waking_by_last_word(settings: Settings, steps: Seq<Step>)
    requires
        runs(settings, steps),
    ensures
        run(settings, steps).proxy.waking == last_waking_word(settings, steps),
    decreases steps.len(),
{
    if steps.len() > 0 {
        law_waking_by_last_word(settings, steps.drop_last());
    }
}

/// How the backend stands at `now`, by all that has happened.
pub open spec fn standing_by_history(
    settings: Settings,
    steps: Seq<Step>,
    now: u128,
) -> SleepState {
    if last_waking_word(settings, steps) {
        SleepState::Waking
    } else {
        match last_sighting(settings, steps) {
            Some(seen) if now < seen + 540_000_000_000 => SleepState::AwakeEmpty,
            _ => SleepState::Asleep,
        }
    }
}

/// Whatever has happened, a status ping that comes while nobody plays is told the
/// truth of it: that the backend is waking, while a wake is under way; what the server
/// says of itself, within nine minutes of its having been seen up; and else that it
/// sleeps.
pub proof fn law_ping_is_told_by_history(
    settings: Settings,
    steps: Seq<Step>,
    raw: Seq<u8>,
    protocol: i32,
    now: u128,
    request: Input,
)
    requires
        runs(settings, steps),
        forall|i: int|
            0 <= i < run(settings, steps).conns.len() ==> !connection::is_playing(
                #[trigger] run(settings, steps).conns[i],
            ),
        course::is_packet(request.event, 0),
        status::version_is_readable(settings.version.deep_view()),
    ensures
        ({
            let shake = Input {
                event: EventOf::HandshakeRead { raw, protocol, next_state: 1 },
                proxy: run(settings, steps).proxy,
                now,
            };
            let replying = course::onward(settings, course::opened(settings, shake), request);
            connection::action_of(replying) matches ActionOf::SendClient(sent) && (sent.len()
                <= i32::MAX ==> course::shows_status(
                sent,
                settings,
                protocol,
                standing_by_history(settings, steps, now),
            ))
        }),
{
    let proxy = run(settings, steps).proxy;
    let shake = Input {
        event: EventOf::HandshakeRead { raw, protocol, next_state: 1 },
        proxy,
        now,
    };
    law_keepalive_only_with_players(settings, steps);
    law_waking_by_last_word(settings, steps);
    law_awake_since_last_sighting(settings, steps);
    course::law_ping_is_told_how_backend_stands(settings, raw, protocol, shake, request);
}

/// Whatever has happened, a status ping that comes while someone plays goes to the
/// backend.
pub proof fn law_ping_is_forwarded_by_history(
    settings: Settings,
    steps: Seq<Step>,
    player: int,
    raw: Seq<u8>,
    protocol: i32,
    now: u128,
)
    requires
        runs(settings, steps),
        0 <= player < run(settings, steps).conns.len(),
        run(settings, steps).conns[player] is LoginReplaying || run(settings, steps).conns[player]
            is LoginRelaying,
    ensures
        ({
            let shake = Input {
                event: EventOf::HandshakeRead { raw, protocol, next_state: 1 },
                proxy: run(settings, steps).proxy,
                now,
            };
            connection::action_of(course::opened(settings, shake)) == ActionOf::<
                Seq<u8>,
            >::ConnectBackend
        }),
{
    law_active_counts_players(settings, steps);
    assert(connection::is_playing(run(settings, steps).conns[player]));
}

} // verus!
