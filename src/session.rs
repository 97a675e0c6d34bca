//! The sender's side of a session as decisions on events: the caller does the
//! sending, receiving and sleeping, and hands each outcome back.
use crate::codec::{count_bytes, decode_count, le_value, COUNT_REPLY_LEN};
use crate::pacer::{
    evicted_window, ideal_interval, NANOS_PER_SEC, sat_add, sends_per_second, sleep_for, AveragingPolicy, Pacer, SendRecord,
};
use crate::report::Report;
use vstd::prelude::*;

verus! {

/// How many finish replies may time out before the session gives up.
pub const MAX_FINISH_ATTEMPTS: u64 = 3;

#[derive(Clone, Copy, Debug, PartialEq, Eq, Structural)]
pub enum Phase {
    Idle,
    Resetting,
    Measuring,
    Finishing,
    Reported,
}

#[derive(Clone, Copy, Debug, PartialEq, Eq, Structural)]
pub enum SessionError {
    /// A packet must hold at least its first byte.
    InvalidPacketSize,
    /// A count reply that is not exactly 8 bytes long.
    MalformedReply,
    /// No reset reply of zero came within the session's duration.
    ResetDidNotConverge,
    /// The finish reply did not come after the allowed number of attempts.
    FinishTimedOut,
}

/// What one send call on the data path came to.
#[derive(Clone, Copy, Debug, PartialEq, Eq, Structural)]
pub enum SendOutcome {
    Sent(u64),
    WouldBlock,
}

/// What the caller does after a send.
#[derive(Clone, Copy, Debug, PartialEq, Eq, Structural)]
pub enum SendDecision {
    /// Wait this many nanoseconds, then send again.
    Sleep(u64),
    /// The next send would come after the session's end: ask for the final
    /// count.
    Stop,
}

/// Whether a send that ends at `now`, followed by a wait of `sleep`, reaches
/// the end of a measurement that began at `start` and lasts `duration`.
pub open spec fn should_stop(now: u64, sleep: u64, start: u64, duration: u64) -> bool {
    now + sleep - start >= duration
}

pub open spec fn bytes_of(outcome: SendOutcome) -> u64 {
    match outcome {
        SendOutcome::Sent(n) => n,
        SendOutcome::WouldBlock => 0,
    }
}

/// One benchmark run, from the sender's side. Times are nanoseconds on one
/// monotonic clock.
pub struct Session {
    pub packet_size: u64,
    pub target_rate: u64,
    pub duration: u64,
    pub phase: Phase,
    pub pacer: Pacer,
    pub bytes_transmitted: u64,
    pub reset_started: u64,
    /// Whether the first send of the measurement has been made.
    pub started: bool,
    /// Start of the first send of the measurement.
    pub measure_start: u64,
    pub measure_end: u64,
    pub finish_attempts: u64,
}

impl Session {
    pub open spec fn wf(&self) -> bool {
        &&& self.packet_size > 0
        &&& self.pacer.wf()
        &&& self.pacer.interval == ideal_interval(sends_per_second(self.target_rate, self.packet_size))
        &&& (self.phase == Phase::Finishing || self.phase == Phase::Reported) ==> self.measure_start
            <= self.measure_end
    }

    pub fn new(packet_size: u64, target_rate: u64, duration: u64, policy: AveragingPolicy) -> (r:
        Result<Session, SessionError>)
        ensures
            packet_size == 0 <==> r == Err::<Session, SessionError>(SessionError::InvalidPacketSize),
            packet_size > 0 <==> r is Ok,
            r matches Ok(s) ==> {
                &&& s.wf()
                &&& s.phase == Phase::Idle
                &&& s.packet_size == packet_size
                &&& s.target_rate == target_rate
                &&& s.duration == duration
                &&& s.pacer.policy == policy
                &&& s.pacer.no_latency_seen()
                &&& s.pacer.sends == 0
                &&& s.bytes_transmitted == 0
                &&& !s.started
                &&& s.finish_attempts == 0
            },
    {
        if packet_size == 0 {
            return Err(SessionError::InvalidPacketSize);
        }
        Ok(
            Session {
                packet_size,
                target_rate,
                duration,
                phase: Phase::Idle,
                pacer: Pacer::new(policy, target_rate, packet_size),
                bytes_transmitted: 0,
                reset_started: 0,
                started: false,
                measure_start: 0,
                measure_end: 0,
                finish_attempts: 0,
            },
        )
    }

    /// Starts the reset handshake at time `now`.
    pub fn begin_reset(&mut self, now: u64)
        requires
            old(self).wf(),
            old(self).phase == Phase::Idle,
        ensures
            final(self).wf(),
            *final(self) == (Session { phase: Phase::Resetting, reset_started: now, ..*old(self) }),
    {
        self.phase = Phase::Resetting;
        self.reset_started = now;
    }

    /// Handles a reply to a reset request. `Ok(true)`: the receiver's count
    /// is zero and measuring begins; `Ok(false)`: send the reset request
    /// again.
    pub fn on_reset_reply(&mut self, reply: &[u8]) -> (r: Result<bool, SessionError>)
        requires
            old(self).wf(),
            old(self).phase == Phase::Resetting,
        ensures
            final(self).wf(),
            reply@.len() != COUNT_REPLY_LEN <==> r == Err::<bool, SessionError>(
                SessionError::MalformedReply,
            ),
            reply@.len() == COUNT_REPLY_LEN ==> r == Ok::<bool, SessionError>(le_value(reply@) == 0),
            r == Ok::<bool, SessionError>(true) ==> *final(self) == (Session {
                phase: Phase::Measuring,
                ..*old(self)
            }),
            r != Ok::<bool, SessionError>(true) ==> *final(self) == *old(self),
    {
        match decode_count(reply) {
            None => Err(SessionError::MalformedReply),
            Some(v) => if v == 0 {
                self.phase = Phase::Measuring;
                Ok(true)
            } else {
                Ok(false)
            },
        }
    }

    /// Handles a reset reply that did not come in time: send the request
    /// again, unless the handshake has already taken the session's duration.
    pub fn on_reset_timeout(&self, now: u64) -> (r: Result<(), SessionError>)
        requires
            self.phase == Phase::Resetting,
        ensures
            r is Err <==> now >= self.reset_started && now - self.reset_started >= self.duration,
            r matches Err(e) ==> e == SessionError::ResetDidNotConverge,
    {
        if now >= self.reset_started && now - self.reset_started >= self.duration {
            Err(SessionError::ResetDidNotConverge)
        } else {
            Ok(())
        }
    }

    /// Handles one send call on the data path that ran from `start` to `now`.
    /// The measurement's time runs from the start of its first send.
    pub fn on_send(&mut self, outcome: SendOutcome, start: u64, now: u64) -> (r: SendDecision)
        requires
            old(self).wf(),
            old(self).phase == Phase::Measuring,
            old(self).started ==> old(self).measure_start <= start,
            start <= now,
        ensures
            final(self).wf(),
            final(self).pacer.policy == old(self).pacer.policy,
            final(self).pacer.interval == old(self).pacer.interval,
            final(self).pacer.sends == sat_add(old(self).pacer.sends, 1),
            final(self).pacer.total_latency == sat_add(old(self).pacer.total_latency, (now - start) as u64),
            final(self).pacer.window@ == evicted_window(
                old(self).pacer.window@.push(SendRecord { start, bytes: bytes_of(outcome), end: now }),
                now,
            ),
            old(self).pacer.no_latency_seen() && start == now ==> final(self).pacer.no_latency_seen(),
            ({
                let sleep = sleep_for(final(self).pacer.interval, final(self).pacer.average_latency_spec());
                let sent = sat_add(old(self).bytes_transmitted, bytes_of(outcome));
                let origin = if old(self).started {
                    old(self).measure_start
                } else {
                    start
                };
                if should_stop(now, sleep, origin, old(self).duration) {
                    &&& r == SendDecision::Stop
                    &&& *final(self) == (Session {
                        phase: Phase::Finishing,
                        measure_end: now,
                        started: true,
                        measure_start: origin,
                        bytes_transmitted: sent,
                        pacer: final(self).pacer,
                        ..*old(self)
                    })
                } else {
                    &&& r == SendDecision::Sleep(sleep)
                    &&& *final(self) == (Session {
                        started: true,
                        measure_start: origin,
                        bytes_transmitted: sent,
                        pacer: final(self).pacer,
                        ..*old(self)
                    })
                }
            }),
    {
        let sent = match outcome {
            SendOutcome::Sent(n) => n,
            SendOutcome::WouldBlock => 0,
        };
        if !self.started {
            self.started = true;
            self.measure_start = start;
        }
        self.bytes_transmitted = self.bytes_transmitted.saturating_add(sent);
        let bytes = sent;
        self.pacer.record_send(SendRecord { start, bytes, end: now });
        let sleep = self.pacer.sleep_nanos();
        if (now - self.measure_start) as u128 + (sleep as u128) >= (self.duration as u128) {
            self.phase = Phase::Finishing;
            self.measure_end = now;
            SendDecision::Stop
        } else {
            SendDecision::Sleep(sleep)
        }
    }

    /// Handles the reply to the finish request: the session ends with its
    /// report.
    pub fn on_finish_reply(&mut self, reply: &[u8]) -> (r: Result<Report, SessionError>)
        requires
            old(self).wf(),
            old(self).phase == Phase::Finishing,
        ensures
            final(self).wf(),
            reply@.len() != COUNT_REPLY_LEN <==> r == Err::<Report, SessionError>(
                SessionError::MalformedReply,
            ),
            reply@.len() == COUNT_REPLY_LEN <==> r is Ok,
            r is Err ==> *final(self) == *old(self),
            r matches Ok(rep) ==> {
                &&& *final(self) == (Session { phase: Phase::Reported, ..*old(self) })
                &&& rep.bytes_transmitted == old(self).bytes_transmitted
                &&& rep.bytes_received as nat == le_value(reply@)
                &&& count_bytes(rep.bytes_received) == reply@
                &&& rep.elapsed_nanos == old(self).measure_end - old(self).measure_start
            },
    {
        match decode_count(reply) {
            None => Err(SessionError::MalformedReply),
            Some(v) => {
                self.phase = Phase::Reported;
                Ok(
                    Report {
                        bytes_transmitted: self.bytes_transmitted,
                        bytes_received: v,
                        elapsed_nanos: self.measure_end - self.measure_start,
                    },
                )
            },
        }
    }

    /// Handles a finish reply that did not come in time: send the request
    /// again, or give up once the attempts are used up.
    pub fn on_finish_timeout(&mut self) -> (r: Result<(), SessionError>)
        requires
            old(self).wf(),
            old(self).phase == Phase::Finishing,
        ensures
            final(self).wf(),
            *final(self) == (Session {
                finish_attempts: sat_add(old(self).finish_attempts, 1),
                ..*old(self)
            }),
            r is Err <==> final(self).finish_attempts >= MAX_FINISH_ATTEMPTS,
            r matches Err(e) ==> e == SessionError::FinishTimedOut,
    {
        self.finish_attempts = self.finish_attempts.saturating_add(1);
        if self.finish_attempts >= MAX_FINISH_ATTEMPTS {
            Err(SessionError::FinishTimedOut)
        } else {
            Ok(())
        }
    }
}

/// How many sends a measurement of `duration` makes when every send takes no
/// time: one at each multiple of `interval` after the start, until waiting one
/// more interval would reach `duration`. Meaningful for `interval > 0`.
pub open spec fn zero_latency_sends(interval: nat, duration: nat, elapsed: nat) -> nat
    decreases duration - elapsed,
{
    if interval == 0 || elapsed + interval >= duration {
        1
    } else {
        1 + zero_latency_sends(interval, duration, elapsed + interval)
    }
}

/// When no send so far has taken any time, the pacer waits exactly one
/// interval, so a measurement that began at `origin` stops after a send
/// exactly when one more interval would reach the session's duration.
pub proof fn lemma_zero_latency_decision(s: Session, origin: u64, now: u64)
    requires
        s.wf(),
        s.pacer.no_latency_seen(),
        origin <= now,
    ensures
        sleep_for(s.pacer.interval, s.pacer.average_latency_spec()) == s.pacer.interval,
        should_stop(now, sleep_for(s.pacer.interval, s.pacer.average_latency_spec()), origin, s.duration)
            <==> (now - origin) + s.pacer.interval >= s.duration,
{
    crate::pacer::lemma_zero_latency_sleep(s.pacer);
}

proof fn lemma_zero_latency_sends_bounds(interval: nat, duration: nat, elapsed: nat)
    requires
        interval > 0,
    ensures
        ({
            let n = zero_latency_sends(interval, duration, elapsed);
            &&& n >= 1
            &&& elapsed + n * interval >= duration
            &&& n == 1 || elapsed + (n - 1) * interval < duration
        }),
    decreases duration - elapsed,
{
    if elapsed + interval < duration {
        lemma_zero_latency_sends_bounds(interval, duration, elapsed + interval);
        let m = zero_latency_sends(interval, duration, elapsed + interval);
        assert(elapsed + (m + 1) * interval == elapsed + interval + m * interval) by (nonlinear_arith);
        assert(elapsed + m * interval == elapsed + interval + (m - 1) * interval) by (nonlinear_arith)
            requires m >= 1;
    }
}

/// With a target rate that is a whole number of packets per second, and an
/// interval that divides a second evenly, a measurement of `duration`
/// nanoseconds whose sends take no time and each carry one packet sends
/// within one packet of `rate × duration` bytes, and never less.
pub proof fn lemma_zero_latency_convergence(rate: u64, packet_size: u64, duration: u64)
    requires
        packet_size > 0,
        rate / packet_size >= 1,
        rate % packet_size == 0,
        NANOS_PER_SEC % (rate / packet_size) == 0,
    ensures
        ({
            let interval = ideal_interval(sends_per_second(rate, packet_size));
            let sent = zero_latency_sends(interval as nat, duration as nat, 0) * packet_size;
            &&& interval > 0
            &&& sent * NANOS_PER_SEC >= rate * duration
            &&& sent * NANOS_PER_SEC <= rate * duration + packet_size * NANOS_PER_SEC
        }),
{
    let sps = rate / packet_size;
    let interval = ideal_interval(sends_per_second(rate, packet_size));
    assert(sends_per_second(rate, packet_size) == sps);
    assert(interval * sps == NANOS_PER_SEC) by {
        vstd::arithmetic::div_mod::lemma_fundamental_div_mod(NANOS_PER_SEC as int, sps as int);
    }
    assert(rate == sps * packet_size) by {
        vstd::arithmetic::div_mod::lemma_fundamental_div_mod(rate as int, packet_size as int);
    }
    assert(interval > 0) by (nonlinear_arith)
        requires
            interval * sps == NANOS_PER_SEC,
    ;
    lemma_zero_latency_sends_bounds(interval as nat, duration as nat, 0);
    let n = zero_latency_sends(interval as nat, duration as nat, 0);
    let p = packet_size as nat;
    let i = interval as nat;
    let k = sps as nat;
    let r = rate as nat;
    let d = duration as nat;
    assert(n * p * NANOS_PER_SEC == n * i * r) by (nonlinear_arith)
        requires
            i * k == NANOS_PER_SEC,
            r == k * p,
    ;
    assert(n * i * r >= r * d) by (nonlinear_arith)
        requires
            n * i >= d,
    ;
    if n > 1 {
        assert((n - 1) * i * r <= r * d) by (nonlinear_arith)
            requires
                (n - 1) * i < d,
        ;
        assert(n * i * r == (n - 1) * i * r + p * NANOS_PER_SEC) by (nonlinear_arith)
            requires
                i * k == NANOS_PER_SEC,
                r == k * p,
                n >= 1,
        ;
    } else {
        assert(n * i * r == p * NANOS_PER_SEC) by (nonlinear_arith)
            requires
                i * k == NANOS_PER_SEC,
                r == k * p,
                n == 1,
        ;
    }
}

} // verus!
