//! What the connections of the proxy share: who plays, and what is known of the
//! backend.
//!
//! Times are nanoseconds since some fixed moment before the first of them.
use crate::status::SleepState;
use vstd::prelude::*;

verus! {

/// How long the backend is taken to be up after it was last known to be:
/// somewhat less than it takes to fall asleep.
pub const AWAKE_WINDOW_NANOS: u128 = 540_000_000_000;

/// How long an idle backend stays up.
pub const IDLE_WINDOW_NANOS: u128 = 600_000_000_000;

/// How often the backend is pinged while someone plays.
pub const KEEPALIVE_SECS: u64 = 60;

/// The moment up to which a backend seen up at `now` is taken to be up.
pub open spec fn awake_until_after(now: u128) -> Option<u128> {
    Some((now + AWAKE_WINDOW_NANOS) as u128)
}

/// The backend is taken to be up at `now`.
pub open spec fn awake_at(awake_until: Option<u128>, now: u128) -> bool {
    awake_until matches Some(t) && now < t
}

/// Notes that the backend was up at `now`.
pub fn mark_awake(awake_until: &mut Option<u128>, now: u128)
    requires
        now + AWAKE_WINDOW_NANOS <= u128::MAX,
    ensures
        *final(awake_until) == awake_until_after(now),
{
    *awake_until = Some(now + AWAKE_WINDOW_NANOS);
}

/// Whether the backend was up so recently that it has not fallen asleep since.
pub fn is_probably_awake(awake_until: &Option<u128>, now: u128) -> (awake: bool)
    ensures
        awake == awake_at(*awake_until, now),
{
    match awake_until {
        Some(t) => now < *t,
        None => false,
    }
}

/// What is known of the backend, and who plays on it.
#[derive(Clone, Copy, Debug)]
pub struct ProxyState {
    /// How many players' connections are being relayed.
    pub active: usize,
    /// The backend is said to be waking: someone wakes it, and no player has
    /// found it serving since.
    pub waking: bool,
    /// A wake task was asked for and has not ended.
    pub wake_running: bool,
    /// Until when the backend is taken to be up; `None` before it was ever seen up.
    pub awake_until: Option<u128>,
}

impl ProxyState {
    /// Nobody plays, and nothing is known of the backend.
    pub open spec fn initial() -> ProxyState {
        ProxyState { active: 0, waking: false, wake_running: false, awake_until: None }
    }

    /// The state when the proxy starts.
    pub fn new() -> (proxy: Self)
        ensures
            proxy == ProxyState::initial(),
    {
        ProxyState { active: 0, waking: false, wake_running: false, awake_until: None }
    }

    /// What a status ping is told at `now` while nobody plays.
    pub open spec fn sleep_state_at(self, now: u128) -> SleepState {
        if self.waking {
            SleepState::Waking
        } else if awake_at(self.awake_until, now) {
            SleepState::AwakeEmpty
        } else {
            SleepState::Asleep
        }
    }

    /// What a status ping is told at `now` while nobody plays.
    pub fn sleep_state(&self, now: u128) -> (state: SleepState)
        ensures
            state == self.sleep_state_at(now),
    {
        if self.waking {
            SleepState::Waking
        } else if is_probably_awake(&self.awake_until, now) {
            SleepState::AwakeEmpty
        } else {
            SleepState::Asleep
        }
    }

    /// The backend is to be pinged so that it stays up.
    pub open spec fn keeps_alive(self) -> bool {
        self.active > 0
    }

    /// Whether the backend is to be pinged so that it stays up: only while
    /// someone plays.
    pub fn needs_keepalive(&self) -> (ping: bool)
        ensures
            ping == (self.active > 0),
            ping == self.keeps_alive(),
    {
        self.active > 0
    }

    /// The backend is being woken already.
    pub open spec fn wake_under_way(self) -> bool {
        self.waking || self.wake_running
    }

    /// The state when a login has found the backend asleep.
    pub open spec fn after_wake_call(self) -> ProxyState {
        ProxyState { waking: true, wake_running: true, ..self }
    }

    /// Notes that the backend is to be woken, and says whether a wake task has
    /// to be started for it: not where one is under way.
    pub fn spawn_wake(&mut self) -> (start: bool)
        ensures
            start == !old(self).wake_under_way(),
            *final(self) == old(self).after_wake_call(),
    {
        let start: bool = !(self.waking || self.wake_running);
        self.waking = true;
        self.wake_running = true;
        start
    }

    /// The state when a wake task has ended at `now`.
    pub open spec fn after_wake(self, came_up: bool, now: u128) -> ProxyState {
        ProxyState {
            waking: false,
            wake_running: false,
            awake_until: if came_up {
                awake_until_after(now)
            } else {
                self.awake_until
            },
            ..self
        }
    }

    /// Notes that a wake task has ended: the backend came up, or it was given up.
    pub fn finish_wake(&mut self, came_up: bool, now: u128)
        requires
            came_up ==> now + AWAKE_WINDOW_NANOS <= u128::MAX,
        ensures
            *final(self) == old(self).after_wake(came_up, now),
    {
        if came_up {
            mark_awake(&mut self.awake_until, now);
        }
        self.waking = false;
        self.wake_running = false;
    }

    /// The state when a player's connection to the backend is open at `now`. The
    /// backend is no longer said to be waking, but a wake task that runs goes on;
    /// a player who was held leaves it to that task to end the waking.
    pub open spec fn after_login(self, held: bool, now: u128) -> ProxyState {
        ProxyState {
            active: (self.active + 1) as usize,
            waking: held && self.waking,
            awake_until: awake_until_after(now),
            ..self
        }
    }

    /// Notes that a player's connection to the backend is open.
    pub fn begin_login(&mut self, held: bool, now: u128)
        requires
            now + AWAKE_WINDOW_NANOS <= u128::MAX,
            old(self).active < usize::MAX,
        ensures
            *final(self) == old(self).after_login(held, now),
    {
        if !held {
            self.waking = false;
        }
        mark_awake(&mut self.awake_until, now);
        self.active = self.active + 1;
    }

    /// The state when a player's connection has ended at `now`.
    pub open spec fn after_logout(self, now: u128) -> ProxyState {
        ProxyState {
            active: (self.active - 1) as usize,
            awake_until: awake_until_after(now),
            ..self
        }
    }

    /// Notes that a player's connection has ended.
    pub fn end_login(&mut self, now: u128)
        requires
            now + AWAKE_WINDOW_NANOS <= u128::MAX,
            old(self).active > 0,
        ensures
            *final(self) == old(self).after_logout(now),
    {
        self.active = self.active - 1;
        mark_awake(&mut self.awake_until, now);
    }
}

/// After it was seen up, the backend is taken to be up for the awake window and
/// no longer; so it is never taken to be up when it can have fallen asleep.
pub proof fn law_awake_window(seen: u128, now: u128)
    requires
        seen + AWAKE_WINDOW_NANOS <= u128::MAX,
        seen <= now,
    ensures
        awake_at(awake_until_after(seen), now) <==> now - seen < AWAKE_WINDOW_NANOS,
        awake_at(awake_until_after(seen), now) ==> now - seen < IDLE_WINDOW_NANOS,
{
}

/// A backend that was seen up is taken to be up until nine minutes have passed, and
/// one that was never seen up is not.
pub proof fn law_awake_for_nine_minutes(seen: u128, now: u128)
    requires
        seen + 540_000_000_000 <= u128::MAX,
    ensures
        awake_at(awake_until_after(seen), now) <==> now < seen + 540_000_000_000,
        !awake_at(None, now),
{
}

/// A status ping is told that the backend is waking wherever that is said, even if it
/// was seen up lately; otherwise it is told by the awake window alone.
pub proof fn law_waking_comes_first(proxy: ProxyState, now: u128)
    ensures
        proxy.sleep_state_at(now) == SleepState::Waking <==> proxy.waking,
        proxy.sleep_state_at(now) == SleepState::AwakeEmpty <==> !proxy.waking && (
        proxy.awake_until matches Some(t) && now < t),
{
}

/// One wake at a time: whoever calls for a wake while none is under way starts one,
/// whoever calls after that starts none until it has ended, and then the next call
/// starts one again. A call changes nothing else, and the end of a wake changes the
/// awake window only where the backend came up.
pub proof fn law_wakes_follow_each_other(proxy: ProxyState, came_up: bool, now: u128)
    requires
        now + 540_000_000_000 <= u128::MAX,
    ensures
        !ProxyState::initial().wake_under_way(),
        proxy.wake_under_way() <==> proxy.waking || proxy.wake_running,
        proxy.after_wake_call().wake_under_way(),
        proxy.after_wake_call().waking,
        proxy.after_wake_call().active == proxy.active,
        proxy.after_wake_call().awake_until == proxy.awake_until,
        !proxy.after_wake(came_up, now).wake_under_way(),
        proxy.after_wake(came_up, now).active == proxy.active,
        came_up ==> proxy.after_wake(came_up, now).awake_until == Some(
            (now + 540_000_000_000) as u128,
        ),
        !came_up ==> proxy.after_wake(came_up, now).awake_until == proxy.awake_until,
{
}

/// A player who leaves undoes the count of a player who came, and both have seen the
/// backend up. A player who was not held ends the waking; one who was held, and one
/// who leaves, do not.
pub proof fn law_logout_undoes_login(proxy: ProxyState, held: bool, now: u128, later: u128)
    requires
        proxy.active < usize::MAX,
        now + 540_000_000_000 <= u128::MAX,
        later + 540_000_000_000 <= u128::MAX,
    ensures
        ({
            let playing = proxy.after_login(held, now);
            let left = playing.after_logout(later);
            &&& playing.active == proxy.active + 1
            &&& playing.keeps_alive()
            &&& left.active == proxy.active
            &&& playing.awake_until == Some((now + 540_000_000_000) as u128)
            &&& left.awake_until == Some((later + 540_000_000_000) as u128)
            &&& playing.waking == (held && proxy.waking)
            &&& left.waking == playing.waking
            &&& playing.wake_running == proxy.wake_running
            &&& left.wake_running == proxy.wake_running
        }),
{
}

/// While someone plays, the backend is pinged once a minute: far more often than it
/// takes to fall asleep.
pub proof fn law_pings_keep_backend_up()
    ensures
        KEEPALIVE_SECS == 60,
        KEEPALIVE_SECS * 1_000_000_000 < IDLE_WINDOW_NANOS,
{
}

} // verus!
