//! Pacing: how long to wait after each send so that the send rate tracks a
//! target despite the time each send call takes.
use std::collections::VecDeque;
use vstd::prelude::*;

verus! {

pub const NANOS_PER_SEC: u64 = 1_000_000_000;

/// How far back the rolling window reaches, in nanoseconds.
pub const WINDOW_NANOS: u64 = 1_000_000_000;

/// Most records the rolling window keeps, whatever their age.
pub const MAX_WINDOW_RECORDS: usize = 16_777_216;

/// Sends per second that a rate and a packet size ask for; at least one.
pub open spec fn sends_per_second(rate: u64, packet_size: u64) -> u64
    recommends
        packet_size > 0,
{
    if rate / packet_size == 0 {
        1
    } else {
        (rate / packet_size) as u64
    }
}

/// Nanoseconds between sends at `sps` sends per second.
pub open spec fn ideal_interval(sps: u64) -> u64
    recommends
        sps > 0,
{
    (NANOS_PER_SEC / sps) as u64
}

/// What is left of `interval` once `latency` is taken off; never below zero.
pub open spec fn sleep_for(interval: u64, latency: u64) -> u64 {
    if interval > latency {
        (interval - latency) as u64
    } else {
        0
    }
}

/// `a + b`, or the largest `u64` where the sum does not fit.
pub open spec fn sat_add(a: u64, b: u64) -> u64 {
    if a + b > u64::MAX {
        u64::MAX
    } else {
        (a + b) as u64
    }
}

pub fn target_sends_per_second(rate: u64, packet_size: u64) -> (r: u64)
    requires
        packet_size > 0,
    ensures
        r == sends_per_second(rate, packet_size),
        r >= 1,
{
    let sps = rate / packet_size;
    if sps == 0 {
        1
    } else {
        sps
    }
}

/// A target rate below one packet per second still asks for one send per
/// second, never zero.
pub proof fn lemma_slow_rate_sends_once(rate: u64, packet_size: u64)
    requires
        rate < packet_size,
    ensures
        sends_per_second(rate, packet_size) == 1,
        ideal_interval(sends_per_second(rate, packet_size)) == NANOS_PER_SEC,
{
    vstd::arithmetic::div_mod::lemma_basic_div(rate as int, packet_size as int);
}

pub fn ideal_interval_nanos(sps: u64) -> (r: u64)
    requires
        sps > 0,
    ensures
        r == ideal_interval(sps),
{
    NANOS_PER_SEC / sps
}

/// One send call: when it started, how many bytes it sent, when it returned.
#[derive(Clone, Copy, Debug, PartialEq, Eq, Structural)]
pub struct SendRecord {
    pub start: u64,
    pub bytes: u64,
    pub end: u64,
}

/// How the pacer averages the time that send calls take.
#[derive(Clone, Copy, Debug, PartialEq, Eq, Structural)]
pub enum AveragingPolicy {
    /// Over every send of the session.
    Cumulative,
    /// Over the sends that started within the last second.
    RollingWindow,
}

pub open spec fn latency(r: SendRecord) -> nat {
    if r.end >= r.start {
        (r.end - r.start) as nat
    } else {
        0
    }
}

pub open spec fn latency_sum(s: Seq<SendRecord>) -> nat
    decreases s.len(),
{
    if s.len() == 0 {
        0
    } else {
        latency_sum(s.drop_last()) + latency(s.last())
    }
}

/// Whether a record is too old, or the window too long, for the record at the
/// front to stay once a send ends at `now`.
pub open spec fn evicts_front(s: Seq<SendRecord>, now: u64) -> bool {
    s.len() > 0 && (s[0].start + WINDOW_NANOS < now || s.len() > MAX_WINDOW_RECORDS)
}

/// How many records leave the front of the window once a send ends at `now`.
pub open spec fn evicted_count(s: Seq<SendRecord>, now: u64) -> nat
    decreases s.len(),
{
    if evicts_front(s, now) {
        1 + evicted_count(s.drop_first(), now)
    } else {
        0
    }
}

pub open spec fn evicted_window(s: Seq<SendRecord>, now: u64) -> Seq<SendRecord> {
    s.subrange(evicted_count(s, now) as int, s.len() as int)
}

pub struct Pacer {
    pub policy: AveragingPolicy,
    /// Nanoseconds between sends at the target rate.
    pub interval: u64,
    /// Total time of all send calls, in nanoseconds.
    pub total_latency: u64,
    /// Number of send calls.
    pub sends: u64,
    /// The recent send calls, oldest first.
    pub window: VecDeque<SendRecord>,
    /// Total time of the send calls in `window`.
    pub window_latency: u128,
}

impl Pacer {
    pub open spec fn wf(&self) -> bool {
        &&& self.window@.len() <= MAX_WINDOW_RECORDS
        &&& self.window_latency == latency_sum(self.window@)
        &&& forall|i: int| 0 <= i < self.window@.len() ==> self.window@[i].start <= self.window@[i].end
    }

    /// The average time of a send call under the pacer's policy; zero before
    /// any send.
    pub open spec fn average_latency_spec(&self) -> u64 {
        match self.policy {
            AveragingPolicy::Cumulative => if self.sends == 0 {
                0
            } else {
                (self.total_latency / self.sends) as u64
            },
            AveragingPolicy::RollingWindow => if self.window@.len() == 0 {
                0
            } else {
                (self.window_latency / self.window@.len() as u128) as u64
            },
        }
    }

    /// Whether every send call seen so far took no time at all.
    pub open spec fn no_latency_seen(&self) -> bool {
        &&& self.total_latency == 0
        &&& forall|i: int| 0 <= i < self.window@.len() ==> self.window@[i].start == self.window@[i].end
    }

    pub fn new(policy: AveragingPolicy, rate: u64, packet_size: u64) -> (r: Pacer)
        requires
            packet_size > 0,
        ensures
            r.wf(),
            r.policy == policy,
            r.interval == ideal_interval(sends_per_second(rate, packet_size)),
            r.total_latency == 0,
            r.sends == 0,
            r.window@.len() == 0,
            r.no_latency_seen(),
    {
        let sps = target_sends_per_second(rate, packet_size);
        Pacer {
            policy,
            interval: ideal_interval_nanos(sps),
            total_latency: 0,
            sends: 0,
            window: VecDeque::new(),
            window_latency: 0,
        }
    }

    pub fn average_latency(&self) -> (r: u64)
        requires
            self.wf(),
        ensures
            r == self.average_latency_spec(),
    {
        match self.policy {
            AveragingPolicy::Cumulative => if self.sends == 0 {
                0
            } else {
                self.total_latency / self.sends
            },
            AveragingPolicy::RollingWindow => {
                let n = self.window.len();
                if n == 0 {
                    0
                } else {
                    proof {
                        lemma_latency_sum_bound(self.window@);
                        assert(self.window_latency / n as u128 <= self.window_latency / 1) by (nonlinear_arith)
                            requires n >= 1;
                        assert(self.window_latency <= self.window@.len() * (u64::MAX as nat)) ;
                        assert(self.window_latency / (n as u128) <= u64::MAX) by (nonlinear_arith)
                            requires
                                n >= 1,
                                self.window_latency <= n * (u64::MAX as nat),
                        ;
                    }
                    (self.window_latency / (n as u128)) as u64
                }
            },
        }
    }

    /// How long to wait before the next send.
    pub fn sleep_nanos(&self) -> (r: u64)
        requires
            self.wf(),
        ensures
            r == sleep_for(self.interval, self.average_latency_spec()),
    {
        let avg = self.average_latency();
        self.interval.saturating_sub(avg)
    }

    /// Takes note of one send call that ran from `rec.start` to `rec.end`.
    pub fn record_send(&mut self, rec: SendRecord)
        requires
            old(self).wf(),
            rec.start <= rec.end,
        ensures
            final(self).wf(),
            final(self).policy == old(self).policy,
            final(self).interval == old(self).interval,
            final(self).total_latency == sat_add(old(self).total_latency, (rec.end - rec.start) as u64),
            final(self).sends == sat_add(old(self).sends, 1),
            final(self).window@ == evicted_window(old(self).window@.push(rec), rec.end),
            old(self).no_latency_seen() && rec.start == rec.end ==> final(self).no_latency_seen(),
    {
        let lat = rec.end - rec.start;
        self.total_latency = self.total_latency.saturating_add(lat);
        self.sends = self.sends.saturating_add(1);
        let ghost pushed = self.window@.push(rec);
        proof {
            lemma_latency_sum_bound(self.window@);
            assert(pushed.drop_last() =~= self.window@);
        }
        self.window.push_back(rec);
        self.window_latency = self.window_latency + lat as u128;
        let ghost mut dropped: nat = 0;
        while self.window.len() > 0 && ((self.window[0].start as u128) + (WINDOW_NANOS
            as u128) < (rec.end as u128) || self.window.len() > MAX_WINDOW_RECORDS)
            invariant
                self.policy == old(self).policy,
                self.interval == old(self).interval,
                self.total_latency == sat_add(old(self).total_latency, lat),
                self.sends == sat_add(old(self).sends, 1),
                dropped <= pushed.len(),
                self.window@ == pushed.subrange(dropped as int, pushed.len() as int),
                evicted_count(pushed, rec.end) == dropped + evicted_count(self.window@, rec.end),
                self.window_latency == latency_sum(self.window@),
                self.window@.len() <= MAX_WINDOW_RECORDS + 1,
                forall|i: int| 0 <= i < self.window@.len() ==> self.window@[i].start <= self.window@[i].end,
                old(self).no_latency_seen() && rec.start == rec.end ==> forall|i: int|
                    0 <= i < self.window@.len() ==> self.window@[i].start == self.window@[i].end,
            decreases self.window@.len(),
        {
            let ghost before = self.window@;
            let front = self.window.pop_front();
            match front {
                Some(f) => {
                    proof {
                        lemma_latency_sum_front(before);
                        assert(before.drop_first() =~= self.window@);
                    }
                    self.window_latency = self.window_latency - (f.end - f.start) as u128;
                    proof {
                        dropped = dropped + 1;
                    }
                },
                None => {},
            }
        }
        assert(evicted_count(self.window@, rec.end) == 0);
    }
}

pub proof fn lemma_latency_sum_bound(s: Seq<SendRecord>)
    ensures
        latency_sum(s) <= s.len() * (u64::MAX as nat),
    decreases s.len(),
{
    if s.len() > 0 {
        lemma_latency_sum_bound(s.drop_last());
        assert((s.len() - 1) * (u64::MAX as nat) + u64::MAX as nat == s.len() * (u64::MAX as nat))
            by (nonlinear_arith);
    }
}

/// The sum over a window is the front record's latency plus the sum over the
/// rest.
pub proof fn lemma_latency_sum_front(s: Seq<SendRecord>)
    requires
        s.len() > 0,
    ensures
        latency_sum(s) == latency(s[0]) + latency_sum(s.drop_first()),
    decreases s.len(),
{
    if s.len() > 1 {
        lemma_latency_sum_front(s.drop_last());
        assert(s.drop_last().drop_first() =~= s.drop_first().drop_last());
        assert(s.drop_first().last() == s.last());
        assert(s.drop_last()[0] == s[0]);
    } else {
        assert(s.drop_first().len() == 0);
        assert(s.drop_last().len() == 0);
        assert(latency_sum(s.drop_last()) == 0);
        assert(latency_sum(s.drop_first()) == 0);
        assert(s.last() == s[0]);
    }
}

/// Where every send call so far took no time, the pacer waits exactly the
/// ideal interval, under either policy.
pub proof fn lemma_zero_latency_sleep(p: Pacer)
    requires
        p.wf(),
        p.no_latency_seen(),
    ensures
        sleep_for(p.interval, p.average_latency_spec()) == p.interval,
{
    lemma_latency_sum_zero(p.window@);
}

proof fn lemma_latency_sum_zero(s: Seq<SendRecord>)
    requires
        forall|i: int| 0 <= i < s.len() ==> s[i].start == s[i].end,
    ensures
        latency_sum(s) == 0,
    decreases s.len(),
{
    if s.len() > 0 {
        lemma_latency_sum_zero(s.drop_last());
    }
}

} // verus!
