//! When to connect again, and when to complain.

use vstd::prelude::*;

verus! {

/// The first wait of a shard, in milliseconds.
pub const SHARD_BACKOFF_MS: u64 = 500;

/// The longest wait of a shard, in milliseconds.
pub const SHARD_BACKOFF_MAX_MS: u64 = 30_000;

/// Twice the wait, at most `max_ms`.
pub open spec fn doubled(backoff_ms: u64, max_ms: u64) -> u64 {
    if backoff_ms * 2 > max_ms {
        max_ms
    } else {
        (backoff_ms * 2) as u64
    }
}

/// Doubles a wait up to a bound.
pub fn next_backoff(backoff_ms: u64, max_ms: u64) -> (r: u64)
    ensures
        r == doubled(backoff_ms, max_ms),
{
    match backoff_ms.checked_mul(2) {
        Some(twice) => if twice > max_ms {
            max_ms
        } else {
            twice
        },
        None => max_ms,
    }
}

/// The wait after a shard ended, and the wait to keep for the next time. A clean end starts over.
pub fn after_shard(backoff_ms: u64, ended_cleanly: bool) -> (r: (u64, u64))
    ensures
        r.0 == (if ended_cleanly {
            SHARD_BACKOFF_MS
        } else {
            backoff_ms
        }),
        r.1 == doubled(r.0, SHARD_BACKOFF_MAX_MS),
{
    let wait: u64 = if ended_cleanly {
        SHARD_BACKOFF_MS
    } else {
        backoff_ms
    };
    (wait, next_backoff(wait, SHARD_BACKOFF_MAX_MS))
}

/// What the session loop does before a session.
#[derive(Debug, Clone, Copy, PartialEq, Eq, Structural)]
pub enum Readiness {
    Stop,
    /// Nothing to subscribe to yet.
    AwaitRoutes,
    Run,
}

/// Decides whether a session starts: not after a shutdown, and not without routes.
pub fn readiness(shutdown: bool, routes: usize) -> (r: Readiness)
    ensures
        r == (if shutdown {
            Readiness::Stop
        } else if routes == 0 {
            Readiness::AwaitRoutes
        } else {
            Readiness::Run
        }),
{
    if shutdown {
        Readiness::Stop
    } else if routes == 0 {
        Readiness::AwaitRoutes
    } else {
        Readiness::Run
    }
}

/// What ended a session, or the wait for one.
#[derive(Debug, Clone, Copy, PartialEq, Eq, Structural)]
pub enum SessionEvent {
    Shutdown,
    RoutesChanged,
    Ended,
    Failed,
}

/// What the session loop does next.
#[derive(Debug, Clone, Copy, PartialEq, Eq, Structural)]
pub enum LoopStep {
    Stop,
    Reconnect,
    /// Reconnect after so many milliseconds.
    Wait(u64),
}

/// What an event calls for, and the wait to keep. A clean end waits for the shortest time all the
/// same, a failure for longer each time.
pub open spec fn loop_step(
    backoff_ms: u64,
    event: SessionEvent,
    min_ms: u64,
    max_ms: u64,
) -> (LoopStep, u64) {
    match event {
        SessionEvent::Shutdown => (LoopStep::Stop, backoff_ms),
        SessionEvent::RoutesChanged => (LoopStep::Reconnect, backoff_ms),
        SessionEvent::Ended => (LoopStep::Wait(min_ms), min_ms),
        SessionEvent::Failed => (LoopStep::Wait(backoff_ms), doubled(backoff_ms, max_ms)),
    }
}

/// Decides what the session loop does next.
pub fn session_loop_step(backoff_ms: u64, event: SessionEvent, min_ms: u64, max_ms: u64) -> (r: (
    LoopStep,
    u64,
))
    ensures
        r == loop_step(backoff_ms, event, min_ms, max_ms),
{
    match event {
        SessionEvent::Shutdown => (LoopStep::Stop, backoff_ms),
        SessionEvent::RoutesChanged => (LoopStep::Reconnect, backoff_ms),
        SessionEvent::Ended => (LoopStep::Wait(min_ms), min_ms),
        SessionEvent::Failed => (LoopStep::Wait(backoff_ms), next_backoff(backoff_ms, max_ms)),
    }
}

/// The wait stays between its bounds, never shrinks but at a clean end, and never exceeds the upper
/// bound.
pub proof fn law_backoff_is_bounded(backoff_ms: u64, event: SessionEvent, min_ms: u64, max_ms: u64)
    requires
        min_ms <= backoff_ms <= max_ms,
    ensures
        ({
            let (step, next) = loop_step(backoff_ms, event, min_ms, max_ms);
            &&& min_ms <= next <= max_ms
            &&& event == SessionEvent::Failed ==> next >= backoff_ms
            &&& step is Wait ==> min_ms <= step->Wait_0 <= max_ms
        }),
{
}

/// Counts trades that were dropped because a channel was full; complains at most once in five
/// seconds.
#[derive(Debug, Clone, Copy, PartialEq, Eq, Structural)]
pub struct DropMeter {
    pub drops: u64,
    pub last_warn_ms: i64,
}

/// The shortest time between two complaints, in milliseconds.
pub const WARN_INTERVAL_MS: i64 = 5_000;

impl DropMeter {
    pub fn new() -> (r: Self)
        ensures
            r == (DropMeter { drops: 0, last_warn_ms: 0 }),
    {
        DropMeter { drops: 0, last_warn_ms: 0 }
    }

    /// Counts one more; whether to complain now.
    pub fn record(&mut self, now_ms: i64) -> (r: bool)
        requires
            now_ms >= 0,
            old(self).last_warn_ms >= 0,
        ensures
            final(self).drops == (if old(self).drops == u64::MAX {
                u64::MAX
            } else {
                (old(self).drops + 1) as u64
            }),
            r == (now_ms - old(self).last_warn_ms >= WARN_INTERVAL_MS),
            final(self).last_warn_ms == (if r {
                now_ms
            } else {
                old(self).last_warn_ms
            }),
    {
        self.drops = self.drops.saturating_add(1);
        if now_ms - self.last_warn_ms >= WARN_INTERVAL_MS {
            self.last_warn_ms = now_ms;
            true
        } else {
            false
        }
    }
}

/// Only a shutdown ends the loop, and only a change of routes reconnects at once. A session that
/// ended by itself is followed by the shortest wait, which is then the next one too; one that
/// failed by the wait so far, and the next is twice as long, up to the longest.
pub proof fn law_each_end_has_its_wait(backoff_ms: u64, event: SessionEvent, min_ms: u64, max_ms: u64)
    ensures
        ({
            let (step, next) = loop_step(backoff_ms, event, min_ms, max_ms);
            &&& step is Stop <==> event == SessionEvent::Shutdown
            &&& step is Reconnect <==> event == SessionEvent::RoutesChanged
            &&& event == SessionEvent::Ended ==> step == LoopStep::Wait(min_ms) && next == min_ms
            &&& event == SessionEvent::Failed ==> step == LoopStep::Wait(backoff_ms)
            &&& event == SessionEvent::Failed && 2 * backoff_ms <= max_ms ==> next == 2 * backoff_ms
            &&& event == SessionEvent::Failed && 2 * backoff_ms > max_ms ==> next == max_ms
            &&& event == SessionEvent::RoutesChanged ==> next == backoff_ms
        }),
{
}

/// The wait behind so many failures in a row.
pub open spec fn after_failures(backoff_ms: u64, n: nat, max_ms: u64) -> u64
    decreases n,
{
    if n == 0 {
        backoff_ms
    } else {
        doubled(after_failures(backoff_ms, (n - 1) as nat, max_ms), max_ms)
    }
}

/// Two to the power `n`.
pub open spec fn pow2(n: nat) -> nat
    decreases n,
{
    if n == 0 {
        1
    } else {
        2 * pow2((n - 1) as nat)
    }
}

/// Failures in a row double the wait each time until the longest is reached, and it stays there.
pub proof fn law_waits_grow_to_the_longest(backoff_ms: u64, n: nat, max_ms: u64)
    requires
        0 < backoff_ms <= max_ms,
    ensures
        backoff_ms * pow2(n) <= max_ms ==> after_failures(backoff_ms, n, max_ms) == backoff_ms
            * pow2(n),
        backoff_ms * pow2(n) > max_ms ==> after_failures(backoff_ms, n, max_ms) == max_ms,
    decreases n,
{
    if n > 0 {
        let m = (n - 1) as nat;
        law_waits_grow_to_the_longest(backoff_ms, m, max_ms);
        assert(backoff_ms * pow2(n) == 2 * (backoff_ms * pow2(m))) by (nonlinear_arith)
            requires
                pow2(n) == 2 * pow2(m),
        ;
    } else {
        assert(backoff_ms * pow2(0) == backoff_ms) by (nonlinear_arith)
            requires
                pow2(0) == 1,
        ;
    }
}

} // verus!
