//! Running statistics of a probe run: how many requests went out, how
//! many replies came back, and the round-trip times of those replies.
//!
//! A `State` is meant to be shared between the probe loop and whoever
//! reports at termination, behind one lock that the caller provides. No
//! operation here blocks or performs I/O, so the lock is only ever held
//! for a constant-time update or read.

use vstd::prelude::*;

verus! {

/// What a `State` stands for: the number of requests sent, and the
/// round-trip time of every reply counted so far, oldest first.
#[verifier::ext_equal]
pub struct StatsView {
    pub requests_sent: nat,
    pub rtts: Seq<u64>,
}

/// Sum of all samples.
pub open spec fn rtt_sum(rtts: Seq<u64>) -> nat
    decreases rtts.len(),
{
    if rtts.len() == 0 {
        0
    } else {
        rtt_sum(rtts.drop_last()) + rtts.last() as nat
    }
}

/// The smallest sample, if there is one.
pub open spec fn rtt_min(rtts: Seq<u64>) -> Option<u64>
    decreases rtts.len(),
{
    if rtts.len() == 0 {
        None
    } else {
        match rtt_min(rtts.drop_last()) {
            Some(m) if m <= rtts.last() => Some(m),
            _ => Some(rtts.last()),
        }
    }
}

/// The largest sample, if there is one.
pub open spec fn rtt_max(rtts: Seq<u64>) -> Option<u64>
    decreases rtts.len(),
{
    if rtts.len() == 0 {
        None
    } else {
        match rtt_max(rtts.drop_last()) {
            Some(m) if m >= rtts.last() => Some(m),
            _ => Some(rtts.last()),
        }
    }
}

/// Packet loss in whole percent, rounded down: `100 * (sent - received) /
/// sent`. A run that sent nothing lost nothing, and a tally that holds more
/// replies than requests shows no loss.
pub open spec fn loss_percent_of(sent: nat, received: nat) -> nat {
    if sent == 0 || received > sent {
        0
    } else {
        (100 * (sent - received) / sent as int) as nat
    }
}

/// A point-in-time copy of the statistics.
#[derive(Clone, Copy, Debug, PartialEq, Eq)]
pub struct Snapshot {
    pub requests_sent: u32,
    pub replies_received: u32,
    pub min_rtt: Option<u64>,
    pub max_rtt: Option<u64>,
    pub total_rtt: u128,
}

/// The snapshot that describes `stats`.
pub open spec fn snapshot_of(stats: StatsView) -> Snapshot {
    Snapshot {
        requests_sent: stats.requests_sent as u32,
        replies_received: stats.rtts.len() as u32,
        min_rtt: rtt_min(stats.rtts),
        max_rtt: rtt_max(stats.rtts),
        total_rtt: rtt_sum(stats.rtts) as u128,
    }
}

/// The counters stay within 32 bits, and no reply is counted without a
/// request before it.
pub open spec fn stats_valid(stats: StatsView) -> bool {
    stats.rtts.len() <= stats.requests_sent <= u32::MAX
}

/// The statistics of a run in which nothing has happened yet.
pub open spec fn fresh_stats() -> StatsView {
    StatsView { requests_sent: 0, rtts: Seq::empty() }
}

/// The statistics after one more request was sent. The counter stops at
/// `u32::MAX`.
pub open spec fn after_send(stats: StatsView) -> StatsView {
    StatsView {
        requests_sent: if stats.requests_sent < u32::MAX {
            stats.requests_sent + 1
        } else {
            stats.requests_sent
        },
        rtts: stats.rtts,
    }
}

/// The statistics after a reply with round-trip time `rtt` arrived. It is
/// counted only against a request that has no reply yet.
pub open spec fn after_reply(stats: StatsView, rtt: u64) -> StatsView {
    if stats.rtts.len() < stats.requests_sent {
        StatsView { requests_sent: stats.requests_sent, rtts: stats.rtts.push(rtt) }
    } else {
        stats
    }
}

/// Neither update can make the replies outnumber the requests: at every
/// point of observation `replies_received <= requests_sent`.
pub proof fn lemma_updates_keep_validity(stats: StatsView, rtt: u64)
    requires
        stats_valid(stats),
    ensures
        stats_valid(after_send(stats)),
        stats_valid(after_reply(stats, rtt)),
        snapshot_of(after_send(stats)).replies_received <= snapshot_of(
            after_send(stats),
        ).requests_sent,
        snapshot_of(after_reply(stats, rtt)).replies_received <= snapshot_of(
            after_reply(stats, rtt),
        ).requests_sent,
{
}

/// The samples never sum to more than their number times the largest
/// representable sample.
pub proof fn lemma_rtt_sum_bound(rtts: Seq<u64>)
    ensures
        rtt_sum(rtts) <= rtts.len() * u64::MAX,
    decreases rtts.len(),
{
    if rtts.len() > 0 {
        lemma_rtt_sum_bound(rtts.drop_last());
        assert(rtt_sum(rtts) <= rtts.len() * u64::MAX) by (nonlinear_arith)
            requires
                rtt_sum(rtts) == rtt_sum(rtts.drop_last()) + rtts.last() as nat,
                rtt_sum(rtts.drop_last()) <= (rtts.len() - 1) * u64::MAX,
                rtts.last() <= u64::MAX,
        ;
    }
}

/// The minimum is one of the samples and no sample lies below it; the
/// maximum is one of the samples and no sample lies above it.
pub proof fn lemma_rtt_extremes(rtts: Seq<u64>)
    ensures
        rtts.len() == 0 ==> rtt_min(rtts) is None && rtt_max(rtts) is None,
        rtts.len() > 0 ==> {
            &&& rtt_min(rtts) is Some
            &&& rtt_max(rtts) is Some
            &&& rtts.contains(rtt_min(rtts)->0)
            &&& rtts.contains(rtt_max(rtts)->0)
            &&& forall|i: int| 0 <= i < rtts.len() ==> rtt_min(rtts)->0 <= #[trigger] rtts[i]
            &&& forall|i: int| 0 <= i < rtts.len() ==> rtt_max(rtts)->0 >= #[trigger] rtts[i]
        },
    decreases rtts.len(),
{
    if rtts.len() > 0 {
        let front = rtts.drop_last();
        lemma_rtt_extremes(front);
        assert(rtts[rtts.len() - 1] == rtts.last());
        if front.len() > 0 {
            let lo = rtt_min(front)->0;
            let hi = rtt_max(front)->0;
            let i = choose|i: int| 0 <= i < front.len() && front[i] == lo;
            assert(rtts[i] == lo);
            let j = choose|j: int| 0 <= j < front.len() && front[j] == hi;
            assert(rtts[j] == hi);
        }
        assert forall|i: int| 0 <= i < rtts.len() implies rtt_min(rtts)->0 <= #[trigger] rtts[i]
            && rtt_max(rtts)->0 >= rtts[i] by {
            if i < front.len() {
                assert(front[i] == rtts[i]);
            }
        }
    }
}

/// Computes packet loss in whole percent, rounded down.
pub fn loss_percent(requests_sent: u32, replies_received: u32) -> (percent: u32)
    ensures
        percent == loss_percent_of(requests_sent as nat, replies_received as nat),
        percent <= 100,
{
    if requests_sent == 0 || replies_received > requests_sent {
        0
    } else {
        let lost: u64 = (requests_sent - replies_received) as u64;
        let percent: u64 = 100 * lost / (requests_sent as u64);
        assert(percent <= 100) by (nonlinear_arith)
            requires
                percent == 100 * lost / (requests_sent as int),
                lost <= requests_sent,
                requests_sent > 0,
        ;
        percent as u32
    }
}

/// The statistics of one probe run.
pub struct State {
    requests: u32,
    replies: u32,
    min_rtt: u64,
    max_rtt: u64,
    total_rtt: u128,
    samples: Ghost<Seq<u64>>,
}

impl View for State {
    type V = StatsView;

    closed spec fn view(&self) -> StatsView {
        StatsView { requests_sent: self.requests as nat, rtts: self.samples@ }
    }
}

impl State {
    #[verifier::type_invariant]
    closed spec fn inv(self) -> bool {
        &&& self.replies <= self.requests
        &&& self.replies == self.samples@.len()
        &&& self.total_rtt == rtt_sum(self.samples@)
        &&& self.replies > 0 ==> rtt_min(self.samples@) == Some(self.min_rtt)
        &&& self.replies > 0 ==> rtt_max(self.samples@) == Some(self.max_rtt)
    }

    /// Fresh statistics: nothing sent, nothing received.
    pub fn new() -> (state: State)
        ensures
            state@ == fresh_stats(),
    {
        State {
            requests: 0,
            replies: 0,
            min_rtt: 0,
            max_rtt: 0,
            total_rtt: 0,
            samples: Ghost(Seq::empty()),
        }
    }

    /// Counts one request as sent. The counter stops at `u32::MAX`.
    pub fn record_send(&mut self)
        ensures
            final(self)@ == after_send(old(self)@),
    {
        proof {
            use_type_invariant(&*self);
        }
        if self.requests < u32::MAX {
            self.requests = self.requests + 1;
        }
    }

    /// Counts one reply with round-trip time `rtt`, given in nanoseconds.
    ///
    /// A reply is only counted against a request that has no reply yet:
    /// when every request sent so far has been answered, nothing changes
    /// and the result is `false`.
    pub fn record_reply(&mut self, rtt: u64) -> (counted: bool)
        ensures
            counted == (old(self)@.rtts.len() < old(self)@.requests_sent),
            final(self)@ == after_reply(old(self)@, rtt),
    {
        proof {
            use_type_invariant(&*self);
        }
        if self.replies >= self.requests {
            return false;
        }
        let ghost before = self.samples@;
        let ghost after = before.push(rtt);
        proof {
            assert(after.drop_last() == before);
            lemma_rtt_sum_bound(before);
            lemma_rtt_extremes(before);
            assert(before.len() * u64::MAX + rtt <= u128::MAX) by (nonlinear_arith)
                requires
                    before.len() < u32::MAX,
                    rtt <= u64::MAX,
            ;
        }
        let min_rtt = if self.replies == 0 || rtt < self.min_rtt {
            rtt
        } else {
            self.min_rtt
        };
        let max_rtt = if self.replies == 0 || rtt > self.max_rtt {
            rtt
        } else {
            self.max_rtt
        };
        *self = State {
            requests: self.requests,
            replies: self.replies + 1,
            min_rtt,
            max_rtt,
            total_rtt: self.total_rtt + rtt as u128,
            samples: Ghost(after),
        };
        true
    }

    /// Number of requests sent so far.
    pub fn requests_sent(&self) -> (n: u32)
        ensures
            n == self@.requests_sent,
    {
        self.requests
    }

    /// Number of replies counted so far; never more than the requests.
    pub fn replies_received(&self) -> (n: u32)
        ensures
            n == self@.rtts.len(),
            n <= self@.requests_sent,
    {
        proof {
            use_type_invariant(self);
        }
        self.replies
    }

    /// A consistent copy of the statistics as they stand.
    pub fn snapshot(&self) -> (snap: Snapshot)
        ensures
            stats_valid(self@),
            snap == snapshot_of(self@),
            snap.requests_sent == self@.requests_sent,
            snap.replies_received == self@.rtts.len(),
            snap.replies_received <= snap.requests_sent,
            snap.total_rtt == rtt_sum(self@.rtts),
    {
        proof {
            use_type_invariant(self);
            lemma_rtt_extremes(self.samples@);
        }
        Snapshot {
            requests_sent: self.requests,
            replies_received: self.replies,
            min_rtt: if self.replies == 0 {
                None
            } else {
                Some(self.min_rtt)
            },
            max_rtt: if self.replies == 0 {
                None
            } else {
                Some(self.max_rtt)
            },
            total_rtt: self.total_rtt,
        }
    }
}

} // verus!
