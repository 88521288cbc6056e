//! The idle timer of a session. Times are milliseconds on any clock that
//! does not run backwards.

use vstd::prelude::*;

verus! {

/// What a look at the timer shows.
#[derive(Clone, Copy, Debug, PartialEq, Eq, Structural)]
pub enum TimerCheck {
    /// The timeout is zero: the timer never fires.
    Disabled,
    /// Nothing has moved for longer than the timeout.
    Expired,
    /// Not expired. If nothing moves, the timer expires after this many
    /// milliseconds and not before.
    Pending(u64),
}

/// Mathematical state of an idle timer.
pub struct TimerModel {
    /// Longest idle time allowed; zero switches the timer off.
    pub timeout: nat,
    /// When data last moved.
    pub last_activity: nat,
}

impl TimerModel {
    /// A timer started at `now`.
    pub open spec fn start(timeout: nat, now: nat) -> TimerModel {
        TimerModel { timeout, last_activity: now }
    }

    /// How long nothing has moved, seen at `now`.
    pub open spec fn idle(self, now: nat) -> nat {
        if now > self.last_activity {
            (now - self.last_activity) as nat
        } else {
            0
        }
    }

    /// Whether the session has been idle for longer than the timeout.
    pub open spec fn expired(self, now: nat) -> bool {
        self.timeout > 0 && self.idle(now) > self.timeout
    }

    /// The timer after data moved at `now`. A time before the last noted
    /// one changes nothing.
    pub open spec fn touch(self, now: nat) -> TimerModel {
        if now > self.last_activity {
            TimerModel { last_activity: now, ..self }
        } else {
            self
        }
    }

    /// The timer after data moved at each of `times`, in this order.
    pub open spec fn touch_all(self, times: Seq<nat>) -> TimerModel
        decreases times.len(),
    {
        if times.len() == 0 {
            self
        } else {
            self.touch_all(times.drop_last()).touch(times.last())
        }
    }

    /// What a look at the timer at `now` shows.
    pub open spec fn check(self, now: nat) -> TimerCheck {
        if self.timeout == 0 {
            TimerCheck::Disabled
        } else if self.idle(now) > self.timeout {
            TimerCheck::Expired
        } else {
            let wait = self.timeout - self.idle(now) + 1;
            if wait > u64::MAX {
                TimerCheck::Pending(u64::MAX)
            } else {
                TimerCheck::Pending(wait as u64)
            }
        }
    }
}

/// Watches for a session in which nothing moves.
#[derive(Clone, Copy, Debug)]
pub struct IdleTimer {
    timeout: u64,
    last_activity: u64,
}

impl View for IdleTimer {
    type V = TimerModel;

    closed spec fn view(&self) -> TimerModel {
        TimerModel { timeout: self.timeout as nat, last_activity: self.last_activity as nat }
    }
}

impl IdleTimer {
    /// A timer that allows `timeout_ms` of silence, started at `now_ms`.
    /// A timeout of zero switches it off.
    pub fn new(timeout_ms: u64, now_ms: u64) -> (t: IdleTimer)
        ensures
            t@ == TimerModel::start(timeout_ms as nat, now_ms as nat),
    {
        IdleTimer { timeout: timeout_ms, last_activity: now_ms }
    }

    /// The timeout in milliseconds.
    pub fn timeout_ms(&self) -> (t: u64)
        ensures
            t == self@.timeout,
    {
        self.timeout
    }

    /// When data last moved.
    pub fn last_activity_ms(&self) -> (t: u64)
        ensures
            t == self@.last_activity,
    {
        self.last_activity
    }

    /// Notes that data moved at `now_ms`.
    pub fn touch(&mut self, now_ms: u64)
        ensures
            final(self)@ == old(self)@.touch(now_ms as nat),
    {
        if now_ms > self.last_activity {
            self.last_activity = now_ms;
        }
    }

    /// Whether the session has been idle for longer than the timeout.
    pub fn is_expired(&self, now_ms: u64) -> (b: bool)
        ensures
            b == self@.expired(now_ms as nat),
    {
        self.timeout > 0 && now_ms > self.last_activity && now_ms - self.last_activity
            > self.timeout
    }

    /// Looks at the timer at `now_ms`.
    pub fn check(&self, now_ms: u64) -> (c: TimerCheck)
        ensures
            c == self@.check(now_ms as nat),
            (c == TimerCheck::Expired) <==> self@.expired(now_ms as nat),
    {
        if self.timeout == 0 {
            TimerCheck::Disabled
        } else {
            let idle: u64 = if now_ms > self.last_activity {
                now_ms - self.last_activity
            } else {
                0
            };
            if idle > self.timeout {
                TimerCheck::Expired
            } else {
                let left: u64 = self.timeout - idle;
                if left == u64::MAX {
                    TimerCheck::Pending(u64::MAX)
                } else {
                    TimerCheck::Pending(left + 1)
                }
            }
        }
    }
}

/// Touching never moves the last activity backwards: it ends at the latest
/// of the old value and the times given.
pub proof fn lemma_touch_all_is_latest(m: TimerModel, times: Seq<nat>)
    ensures
        m.touch_all(times).timeout == m.timeout,
        m.touch_all(times).last_activity >= m.last_activity,
        forall|i: int| 0 <= i < times.len() ==> m.touch_all(times).last_activity >= times[i],
        m.touch_all(times).last_activity == m.last_activity || times.contains(
            m.touch_all(times).last_activity,
        ),
    decreases times.len(),
{
    if times.len() > 0 {
        let front = times.drop_last();
        lemma_touch_all_is_latest(m, front);
        let before = m.touch_all(front);
        let after = m.touch_all(times);
        assert forall|i: int| 0 <= i < times.len() implies after.last_activity >= times[i] by {
            if i < front.len() {
                assert(front[i] == times[i]);
            }
        }
        if after.last_activity != m.last_activity {
            if after.last_activity == times.last() {
                assert(times[times.len() - 1] == after.last_activity);
            } else {
                let j = choose|j: int| 0 <= j < front.len() && front[j] == before.last_activity;
                assert(times[j] == after.last_activity);
            }
        }
    }
}

/// A session in which data keeps moving never times out, however long it
/// has lasted: whenever some activity lies no further back than the
/// timeout, the timer is not expired.
pub proof fn lemma_steady_flow_never_expires(m: TimerModel, times: Seq<nat>, i: int, now: nat)
    requires
        0 <= i < times.len(),
        now <= times[i] + m.timeout,
    ensures
        !m.touch_all(times).expired(now),
        m.touch_all(times).check(now) != TimerCheck::Expired,
{
    lemma_touch_all_is_latest(m, times);
}

/// A session in which nothing moves times out: once more than the timeout
/// has passed since the last activity, a timer that is switched on is
/// expired, and stays so until data moves.
pub proof fn lemma_silence_expires(m: TimerModel, now: nat, later: nat)
    requires
        m.timeout > 0,
        now > m.last_activity + m.timeout,
        later >= now,
    ensures
        m.expired(now),
        m.expired(later),
        m.check(now) == TimerCheck::Expired,
{
}

/// A timer with timeout zero never expires.
pub proof fn lemma_zero_timeout_disables(m: TimerModel, now: nat)
    requires
        m.timeout == 0,
    ensures
        !m.expired(now),
        m.check(now) == TimerCheck::Disabled,
{
}

/// The wait that a pending check names is exact: without activity the
/// timer is not expired any sooner, and is expired right then.
pub proof fn lemma_pending_wait_is_exact(m: TimerModel, now: nat, wait: u64, sooner: nat)
    requires
        now >= m.last_activity,
        m.check(now) == TimerCheck::Pending(wait),
        sooner < wait,
    ensures
        wait >= 1,
        !m.expired(now + sooner),
        wait < u64::MAX ==> m.expired(now + wait as nat),
{
}

} // verus!
