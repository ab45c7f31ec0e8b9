use mc_wake_proxy::connection::{
    login_disconnect, ActionOf, Connection, Event, EventOf, Outcome, PhaseOf,
};
use mc_wake_proxy::error::ProtocolError;
use mc_wake_proxy::json::json_escape;
use mc_wake_proxy::packet::string_packet;
use mc_wake_proxy::probe::{probe_handshake_packet, Probe, ProbeActionOf};
use mc_wake_proxy::proxy::{is_probably_awake, mark_awake, ProxyState, AWAKE_WINDOW_NANOS};
use mc_wake_proxy::settings::{bind_addr, login_hold_secs, Settings};
use mc_wake_proxy::status::{
    motd_for, reply_to_status_packet, status_json, SleepState, StatusReplyOf,
};
use mc_wake_proxy::wake::{Wait, WaitAction, WaitEvent};

fn settings(hold: u64) -> Settings {
    Settings { login_hold_secs: hold, version: None, motd: None }
}

#[test]
fn json_escapes() {
    assert_eq!(json_escape("plain text, 'quoted'"), "plain text, 'quoted'");
    assert_eq!(json_escape("a\"b\\c\nd"), "a\\\"b\\\\c\\nd");
    assert_eq!(json_escape("\t\r\u{0}\u{1f}"), "\\u0009\\u000d\\u0000\\u001f");
    assert_eq!(json_escape("\u{7f}\u{a7}6\u{26a1}"), "\u{7f}\u{a7}6\u{26a1}");
    assert_eq!(json_escape(""), "");
}

#[test]
fn motd_of_each_state() {
    let own = Some("A \"fine\" server".to_string());
    assert_eq!(motd_for(SleepState::Waking, &own), r"\u00a7e\u26a1 Waking up... refresh and join in a moment!");
    assert_eq!(motd_for(SleepState::Asleep, &own), r"\u00a77\u26a1 Server is asleep \u2014 join to wake it up!");
    assert_eq!(motd_for(SleepState::AwakeEmpty, &own), r#"A \"fine\" server"#);
    assert_eq!(motd_for(SleepState::AwakeEmpty, &None), "Minecraft Server");
}

#[test]
fn status_document() {
    let set = Settings {
        login_hold_secs: 0,
        version: Some("1.20.1".to_string()),
        motd: Some("hello".to_string()),
    };
    assert_eq!(
        status_json(&set, 763, SleepState::AwakeEmpty),
        r#"{"version":{"name":"1.20.1","protocol":763},"players":{"max":0,"online":0},"description":{"text":"hello"}}"#
    );
    assert_eq!(
        status_json(&settings(0), -1, SleepState::Asleep),
        r#"{"version":{"name":"Sleeping","protocol":-1},"players":{"max":0,"online":0},"description":{"text":"\u00a77\u26a1 Server is asleep \u2014 join to wake it up!"}}"#
    );
}

#[test]
fn status_packets_are_answered() {
    let set = settings(0);
    let state = SleepState::Waking;
    let json = status_json(&set, 5, state);
    match reply_to_status_packet(&set, 5, state, &[0]) {
        Ok(StatusReplyOf::Status(p)) => assert_eq!(p, string_packet(0, &json)),
        _ => panic!("no status"),
    }
    match reply_to_status_packet(&set, 5, state, &[1, 1, 2, 3, 4, 5, 6, 7, 8]) {
        Ok(StatusReplyOf::Pong(p)) => assert_eq!(p, vec![9, 1, 1, 2, 3, 4, 5, 6, 7, 8]),
        _ => panic!("no pong"),
    }
    match reply_to_status_packet(&set, 5, state, &[0x81, 0x00, 7]) {
        Ok(StatusReplyOf::Pong(p)) => assert_eq!(p, vec![2, 1, 7]),
        _ => panic!("no pong"),
    }
    assert_eq!(
        reply_to_status_packet(&set, 5, state, &[2]).err(),
        Some(ProtocolError::UnexpectedStatusPacket(2))
    );
    assert_eq!(
        reply_to_status_packet(&set, 5, state, &[0x80]).err(),
        Some(ProtocolError::TruncatedVarint)
    );
}

#[test]
fn awake_for_nine_minutes() {
    let mut until = None;
    assert!(!is_probably_awake(&until, 0));
    mark_awake(&mut until, 1_000);
    assert!(is_probably_awake(&until, 1_000));
    assert!(is_probably_awake(&until, 1_000 + AWAKE_WINDOW_NANOS - 1));
    assert!(!is_probably_awake(&until, 1_000 + AWAKE_WINDOW_NANOS));
    assert_eq!(AWAKE_WINDOW_NANOS, 9 * 60 * 1_000_000_000);
}

#[test]
fn sleep_state_prefers_waking() {
    let mut proxy = ProxyState::new();
    assert_eq!(proxy.sleep_state(0), SleepState::Asleep);
    proxy.finish_wake(true, 0);
    assert_eq!(proxy.sleep_state(5), SleepState::AwakeEmpty);
    assert!(proxy.spawn_wake());
    assert!(!proxy.spawn_wake());
    assert_eq!(proxy.sleep_state(5), SleepState::Waking);
    proxy.finish_wake(false, 9);
    assert_eq!(proxy.sleep_state(AWAKE_WINDOW_NANOS - 1), SleepState::AwakeEmpty);
    assert_eq!(proxy.sleep_state(AWAKE_WINDOW_NANOS), SleepState::Asleep);
}

#[test]
fn keepalive_follows_players() {
    let mut proxy = ProxyState::new();
    assert!(!proxy.needs_keepalive());
    proxy.begin_login(false, 0);
    proxy.begin_login(true, 0);
    proxy.end_login(1);
    assert!(proxy.needs_keepalive());
    proxy.end_login(2);
    assert!(!proxy.needs_keepalive());
}

#[test]
fn hold_setting() {
    assert_eq!(login_hold_secs(None), 0);
    assert_eq!(login_hold_secs(Some("25")), 25);
    assert_eq!(login_hold_secs(Some("+7")), 7);
    assert_eq!(login_hold_secs(Some("007")), 7);
    assert_eq!(login_hold_secs(Some("18446744073709551615")), 18446744073709551615);
    for bad in vec!["", "+", "-1", " 5", "5s", "1_0", "++1", "18446744073709551616", "\u{665}"] {
        assert_eq!(login_hold_secs(Some(bad)), 0);
        assert!(bad.parse::<u64>().is_err());
    }
}

#[test]
fn listen_address() {
    assert_eq!(bind_addr(None), "0.0.0.0:25565");
    assert_eq!(bind_addr(Some("80")), "0.0.0.0:80");
}

#[test]
fn probe_needs_an_answer() {
    let p = Probe::Connecting.step(true);
    assert_eq!(p, Probe::SendingHandshake);
    assert_eq!(p.step(false), Probe::Ended(false));
    let p = p.step(true).step(true);
    assert_eq!(p, Probe::AwaitingAnswer);
    assert_eq!(p.step(false), Probe::Ended(false));
    assert_eq!(p.step(true), Probe::Ended(true));
    assert_eq!(Probe::Ended(false).step(true), Probe::Ended(false));
}

#[test]
fn wait_probes_and_rests() {
    let w = Wait::Probing.step(WaitEvent::Probed(false));
    assert_eq!(w, Wait::Resting);
    assert_eq!(w.step(WaitEvent::Probed(true)), Wait::Resting);
    let w = w.step(WaitEvent::Rested);
    assert_eq!(w, Wait::Probing);
    assert_eq!(w.step(WaitEvent::Probed(true)), Wait::Ready);
}

#[test]
fn disconnect_packet() {
    let json = r#"{"text":"bye"}"#;
    let mut expected = vec![16, 0, 14];
    expected.extend_from_slice(json.as_bytes());
    assert_eq!(login_disconnect("bye"), expected);
}

fn shake(next_state: i32) -> Event {
    EventOf::HandshakeRead { raw: vec![4, 2], protocol: 763, next_state }
}

/// Lets the events come to a new connection at time 100.
fn run(proxy: &mut ProxyState, hold: u64, events: Vec<Event>) -> Connection {
    let set = settings(hold);
    let mut conn = Connection::new();
    for event in events {
        conn = conn.step(proxy, &set, event, 100);
    }
    conn
}

#[test]
fn status_without_players_is_local() {
    let mut proxy = ProxyState::new();
    let conn = run(&mut proxy, 0, vec![shake(1)]);
    assert!(matches!(conn.action(), ActionOf::ReadPacket(128)));
    let conn = run(&mut proxy, 0, vec![shake(1), EventOf::PacketRead(vec![0])]);
    let expected = string_packet(0, &status_json(&settings(0), 763, SleepState::Asleep));
    assert!(matches!(conn.action(), ActionOf::SendClient(p) if *p == expected));
    let conn = run(
        &mut proxy,
        0,
        vec![
            shake(1),
            EventOf::PacketRead(vec![0]),
            EventOf::Done,
            EventOf::PacketRead(vec![1, 9]),
        ],
    );
    assert!(matches!(conn.action(), ActionOf::SendClient(p) if *p == vec![2, 1, 9]));
    let set = settings(0);
    let conn = conn.step(&mut proxy, &set, EventOf::Done, 100);
    assert!(matches!(conn.action(), ActionOf::FlushClient));
    let conn = conn.step(&mut proxy, &set, EventOf::Done, 100);
    assert!(matches!(conn.action(), ActionOf::Finish(Outcome::Done)));
    assert_eq!((proxy.active, proxy.waking, proxy.awake_until), (0, false, None));
}

#[test]
fn status_with_players_is_forwarded() {
    let mut proxy = ProxyState::new();
    proxy.active = 1;
    let conn = run(&mut proxy, 0, vec![shake(1)]);
    assert!(matches!(conn.action(), ActionOf::ConnectBackend));
    let conn = run(&mut proxy, 0, vec![shake(1), EventOf::Done]);
    assert!(matches!(conn.action(), ActionOf::SendBackend(p) if *p == vec![4, 2]));
    let conn = run(&mut proxy, 0, vec![shake(1), EventOf::Done, EventOf::Done]);
    assert!(matches!(conn.action(), ActionOf::Relay));
    let conn = run(
        &mut proxy,
        0,
        vec![shake(1), EventOf::Done, EventOf::Done, EventOf::IoError],
    );
    assert!(matches!(conn.action(), ActionOf::Finish(Outcome::Done)));
    assert_eq!(proxy.active, 1);
}

#[test]
fn timeouts_end_the_connection() {
    let mut proxy = ProxyState::new();
    let conn = run(&mut proxy, 0, vec![EventOf::TimedOut]);
    let slow = Outcome::Failed(ProtocolError::HandshakeTimeout);
    assert!(matches!(conn.action(), ActionOf::Finish(o) if o == slow));
    let conn = run(&mut proxy, 0, vec![shake(1), EventOf::TimedOut]);
    let slow = Outcome::Failed(ProtocolError::StatusTimeout);
    assert!(matches!(conn.action(), ActionOf::Finish(o) if o == slow));
}

#[test]
fn unknown_next_state_is_refused() {
    let mut proxy = ProxyState::new();
    for next_state in vec![0, 4, -1] {
        let conn = run(&mut proxy, 0, vec![shake(next_state)]);
        let why = Outcome::Failed(ProtocolError::UnexpectedNextState(next_state));
        assert!(matches!(conn.action(), ActionOf::Finish(o) if o == why));
    }
}

#[test]
fn refused_handshake_is_dropped() {
    let mut proxy = ProxyState::new();
    let conn = run(&mut proxy, 0, vec![EventOf::Failed(ProtocolError::LegacyPing), EventOf::Done]);
    let why = Outcome::Failed(ProtocolError::LegacyPing);
    assert!(matches!(conn.action(), ActionOf::Finish(o) if o == why));
    assert!(!proxy.waking);
}

#[test]
fn login_on_a_serving_backend() {
    for next_state in vec![2, 3] {
        let mut proxy = ProxyState::new();
        proxy.waking = true;
        let set = settings(0);
        let conn = run(&mut proxy, 0, vec![shake(next_state), EventOf::Ready]);
        assert!(matches!(conn.action(), ActionOf::ConnectBackend));
        assert!(proxy.waking);
        let conn = conn.step(&mut proxy, &set, EventOf::Done, 100);
        assert!(matches!(conn.action(), ActionOf::SendBackend(p) if *p == vec![4, 2]));
        assert_eq!((proxy.active, proxy.waking), (1, false));
        assert_eq!(proxy.awake_until, Some(100 + AWAKE_WINDOW_NANOS));
        let conn = conn.step(&mut proxy, &set, EventOf::Done, 100);
        assert!(matches!(conn.action(), ActionOf::Relay));
        let conn = conn.step(&mut proxy, &set, EventOf::Done, 900);
        assert!(matches!(conn.action(), ActionOf::Finish(Outcome::Done)));
        assert_eq!(proxy.active, 0);
        assert_eq!(proxy.awake_until, Some(900 + AWAKE_WINDOW_NANOS));
    }
}

#[test]
fn failed_logins_are_not_left_counted() {
    let mut proxy = ProxyState::new();
    let start = || vec![shake(2), EventOf::Ready];
    let mut events = start();
    events.push(EventOf::IoError);
    let conn = run(&mut proxy, 0, events);
    assert!(matches!(conn.action(), ActionOf::Finish(Outcome::IoError)));
    assert_eq!((proxy.active, proxy.awake_until), (0, None));
    let mut events = start();
    events.push(EventOf::Done);
    events.push(EventOf::IoError);
    let conn = run(&mut proxy, 0, events);
    assert!(matches!(conn.action(), ActionOf::Finish(Outcome::IoError)));
    assert_eq!(proxy.active, 0);
    let mut events = start();
    events.push(EventOf::Done);
    events.push(EventOf::Done);
    events.push(EventOf::IoError);
    let conn = run(&mut proxy, 0, events);
    assert!(matches!(conn.action(), ActionOf::Finish(Outcome::IoError)));
    assert_eq!(proxy.active, 0);
}

#[test]
fn login_on_a_sleeping_backend() {
    let mut proxy = ProxyState::new();
    let set = settings(0);
    let conn = run(&mut proxy, 0, vec![shake(2), EventOf::NotReady]);
    assert!(matches!(conn.action(), ActionOf::SpawnWake(120)));
    assert!(proxy.waking);
    let conn = conn.step(&mut proxy, &set, EventOf::Done, 100);
    assert!(matches!(conn.action(), ActionOf::DrainPacket(4096, 500)));
    let conn = conn.step(&mut proxy, &set, EventOf::Done, 100);
    let told = login_disconnect(r"\u00a7e\u26a1 The server was asleep \u2014 waking it up now!\n\u00a77Rejoin in ~30 seconds and you're in.");
    assert!(matches!(conn.action(), ActionOf::SendClient(p) if *p == told));
    let conn = conn.step(&mut proxy, &set, EventOf::Done, 100);
    assert!(matches!(conn.action(), ActionOf::FlushClient));
    let conn = conn.step(&mut proxy, &set, EventOf::Done, 100);
    assert!(matches!(conn.action(), ActionOf::ShutdownClient));
    let conn = conn.step(&mut proxy, &set, EventOf::Done, 100);
    assert!(matches!(conn.action(), ActionOf::Linger(5)));
    let conn = conn.step(&mut proxy, &set, EventOf::Done, 100);
    assert!(matches!(conn.action(), ActionOf::Finish(Outcome::Done)));

    // The next player finds a wake under way.
    let conn = run(&mut proxy, 0, vec![shake(2), EventOf::NotReady]);
    assert!(matches!(conn.action(), ActionOf::DrainPacket(4096, 500)));
}

#[test]
fn held_player_joins_or_is_turned_away() {
    let mut proxy = ProxyState::new();
    let conn = run(&mut proxy, 20, vec![shake(2), EventOf::NotReady, EventOf::Done]);
    assert!(matches!(conn.action(), ActionOf::Hold(20)));
    let conn = conn.step(&mut proxy, &settings(20), EventOf::TimedOut, 100);
    assert!(matches!(conn.action(), ActionOf::DrainPacket(_, _)));

    let conn = run(
        &mut proxy,
        20,
        vec![shake(2), EventOf::NotReady, EventOf::Ready, EventOf::Done],
    );
    assert!(matches!(conn.action(), ActionOf::SendBackend(p) if *p == vec![4, 2]));
    // The wake task, not the held player, ends the waking.
    assert_eq!((proxy.active, proxy.waking), (1, true));
}

#[test]
fn stray_events_change_nothing() {
    let mut proxy = ProxyState::new();
    let conn = run(&mut proxy, 0, vec![shake(2), EventOf::Done, EventOf::TimedOut]);
    assert!(matches!(conn, PhaseOf::Probing { .. }));
    let conn = run(&mut proxy, 0, vec![EventOf::Ready]);
    assert!(matches!(conn, PhaseOf::AwaitingHandshake));
}

#[test]
fn interleaved_players_are_counted() {
    let mut proxy = ProxyState::new();
    let set = settings(0);
    let a = run(&mut proxy, 0, vec![shake(2), EventOf::Ready, EventOf::Done]);
    let b = run(&mut proxy, 0, vec![shake(3), EventOf::Ready, EventOf::Done]);
    assert_eq!(proxy.active, 2);
    let a = a.step(&mut proxy, &set, EventOf::IoError, 200);
    assert_eq!(proxy.active, 1);
    let b = b.step(&mut proxy, &set, EventOf::Done, 300);
    assert!(proxy.needs_keepalive());
    let a = a.step(&mut proxy, &set, EventOf::Done, 400);
    let b = b.step(&mut proxy, &set, EventOf::Done, 500);
    assert!(matches!(a, PhaseOf::Finished(Outcome::IoError)));
    assert!(matches!(b, PhaseOf::Finished(Outcome::Done)));
    assert_eq!(proxy.active, 0);
    assert_eq!(proxy.awake_until, Some(500 + AWAKE_WINDOW_NANOS));
}

#[test]
fn never_a_second_wake() {
    let mut proxy = ProxyState::new();
    let asleep = || vec![shake(2), EventOf::NotReady];
    assert!(matches!(run(&mut proxy, 0, asleep()).action(), ActionOf::SpawnWake(120)));
    assert!(matches!(run(&mut proxy, 0, asleep()).action(), ActionOf::DrainPacket(_, _)));
    // A player finds the backend serving before the wake task does.
    run(&mut proxy, 0, vec![shake(2), EventOf::Ready, EventOf::Done]);
    assert_eq!((proxy.waking, proxy.wake_running), (false, true));
    assert!(matches!(run(&mut proxy, 0, asleep()).action(), ActionOf::DrainPacket(_, _)));
    assert_eq!((proxy.waking, proxy.wake_running), (true, true));
    proxy.finish_wake(false, 100);
    assert_eq!((proxy.waking, proxy.wake_running), (false, false));
    assert!(matches!(run(&mut proxy, 0, asleep()).action(), ActionOf::SpawnWake(120)));
}

#[test]
fn limits_of_phases() {
    let mut proxy = ProxyState::new();
    let conn = Connection::new();
    assert!(matches!(conn.action(), ActionOf::ReadHandshake(10)));
    assert_eq!(conn.time_limit_secs(), None);
    let conn = run(&mut proxy, 0, vec![shake(2)]);
    assert!(matches!(conn.action(), ActionOf::Probe(2)));
    assert_eq!(conn.time_limit_secs(), None);
    for events in vec![
        vec![shake(1)],
        vec![shake(1), EventOf::PacketRead(vec![0])],
        vec![shake(1), EventOf::PacketRead(vec![1])],
        vec![shake(1), EventOf::PacketRead(vec![1]), EventOf::Done],
    ] {
        let conn = run(&mut proxy, 0, events);
        assert_eq!(conn.time_limit_secs(), Some(10));
        let conn = conn.step(&mut proxy, &settings(0), EventOf::TimedOut, 100);
        let slow = Outcome::Failed(ProtocolError::StatusTimeout);
        assert!(matches!(conn.action(), ActionOf::Finish(o) if o == slow));
        assert_eq!(conn.time_limit_secs(), None);
    }
    proxy.active = 1;
    assert_eq!(run(&mut proxy, 0, vec![shake(1)]).time_limit_secs(), None);
}

#[test]
fn probe_and_wait_ask_for() {
    assert!(matches!(Probe::Connecting.action(), ProbeActionOf::Connect));
    assert!(matches!(Probe::SendingHandshake.action(),
        ProbeActionOf::Send(p) if p == probe_handshake_packet()));
    assert!(matches!(Probe::SendingRequest.action(),
        ProbeActionOf::Send(p) if p == vec![1, 0]));
    assert!(matches!(Probe::AwaitingAnswer.action(), ProbeActionOf::ReadPacket(65536)));
    assert!(matches!(Probe::Ended(true).action(), ProbeActionOf::Report(true)));
    assert_eq!(Wait::Probing.action(), WaitAction::Probe(2));
    assert_eq!(Wait::Resting.action(), WaitAction::Rest(1));
    assert_eq!(Wait::Ready.action(), WaitAction::Stop);
}

#[test]
fn several_status_requests_and_a_ping() {
    let mut proxy = ProxyState::new();
    let set = settings(0);
    let expected = string_packet(0, &status_json(&set, 763, SleepState::Asleep));
    let mut conn = run(&mut proxy, 0, vec![shake(1)]);
    for _ in 0..3 {
        conn = conn.step(&mut proxy, &set, EventOf::PacketRead(vec![0]), 100);
        assert!(matches!(conn.action(), ActionOf::SendClient(p) if *p == expected));
        // A wake that begins meanwhile does not change the answers of this exchange.
        proxy.spawn_wake();
        conn = conn.step(&mut proxy, &set, EventOf::Done, 100);
        assert!(matches!(conn.action(), ActionOf::ReadPacket(128)));
    }
    conn = conn.step(&mut proxy, &set, EventOf::PacketRead(vec![1, 5, 6]), 100);
    assert!(matches!(conn.action(), ActionOf::SendClient(p) if *p == vec![3, 1, 5, 6]));
    conn = conn.step(&mut proxy, &set, EventOf::Done, 100);
    conn = conn.step(&mut proxy, &set, EventOf::Done, 100);
    assert!(matches!(conn, PhaseOf::Finished(Outcome::Done)));
}

#[test]
fn exchange_without_ping_is_not_done() {
    let mut proxy = ProxyState::new();
    let gone = vec![shake(1), EventOf::PacketRead(vec![0]), EventOf::Done, EventOf::IoError];
    assert!(matches!(run(&mut proxy, 0, gone), PhaseOf::Finished(Outcome::IoError)));
    let unsent = vec![shake(1), EventOf::PacketRead(vec![1]), EventOf::IoError];
    assert!(matches!(run(&mut proxy, 0, unsent), PhaseOf::Finished(Outcome::IoError)));
}

#[test]
fn wait_outlasts_failed_probes() {
    let mut wait = Wait::Probing;
    for _ in 0..50 {
        assert_eq!(wait.action(), WaitAction::Probe(2));
        wait = wait.step(WaitEvent::Probed(false));
        assert_eq!(wait.action(), WaitAction::Rest(1));
        wait = wait.step(WaitEvent::Rested);
    }
    assert_eq!(wait.step(WaitEvent::Probed(true)).action(), WaitAction::Stop);
}

#[test]
fn awake_since_last_sighting() {
    let mut proxy = ProxyState::new();
    let set = settings(0);
    run(&mut proxy, 0, vec![shake(2), EventOf::NotReady]);
    assert_eq!(proxy.awake_until, None);
    proxy.finish_wake(true, 50);
    assert_eq!(proxy.awake_until, Some(50 + AWAKE_WINDOW_NANOS));
    // A probe that finds the backend serving is not yet a connection to it.
    let conn = run(&mut proxy, 0, vec![shake(2), EventOf::Ready]);
    assert_eq!(proxy.awake_until, Some(50 + AWAKE_WINDOW_NANOS));
    let conn = conn.step(&mut proxy, &set, EventOf::Done, 200);
    assert_eq!(proxy.awake_until, Some(200 + AWAKE_WINDOW_NANOS));
    let conn = conn.step(&mut proxy, &set, EventOf::Done, 300);
    assert_eq!(proxy.awake_until, Some(200 + AWAKE_WINDOW_NANOS));
    conn.step(&mut proxy, &set, EventOf::Done, 400);
    assert_eq!(proxy.awake_until, Some(400 + AWAKE_WINDOW_NANOS));
    assert!(proxy.spawn_wake());
    proxy.finish_wake(false, 500);
    assert_eq!(proxy.awake_until, Some(400 + AWAKE_WINDOW_NANOS));
}

#[test]
fn count_follows_unless_it_overflows() {
    let mut proxy = ProxyState::new();
    let connecting = run(&mut proxy, 0, vec![shake(2), EventOf::Ready]);
    assert!(connecting.is_countable(&proxy, &EventOf::Done));
    proxy.active = usize::MAX;
    assert!(!connecting.is_countable(&proxy, &EventOf::Done));
    assert!(connecting.is_countable(&proxy, &EventOf::IoError));
    proxy.active = 0;
    let replaying = connecting.step(&mut proxy, &settings(0), EventOf::Done, 100);
    assert!(replaying.is_countable(&proxy, &EventOf::IoError));
    proxy.active = 0;
    assert!(!replaying.is_countable(&proxy, &EventOf::IoError));
    assert!(replaying.is_countable(&proxy, &EventOf::Done));
    let relaying = replaying.step(&mut proxy, &settings(0), EventOf::Done, 100);
    assert!(!relaying.is_countable(&proxy, &EventOf::Done));
    assert!(!relaying.is_countable(&proxy, &EventOf::IoError));
    assert!(relaying.is_countable(&proxy, &EventOf::TimedOut));
}
