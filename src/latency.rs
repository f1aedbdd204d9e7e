//! Latency bookkeeping: dispatched turns waiting for an answer, and the
//! latencies of the most recent answers.
use std::collections::VecDeque;
use vstd::prelude::*;

verus! {

/// Number of recent latencies kept.
pub const MAX_COMPLETED: usize = 100;

/// Sum of a sequence of latencies.
pub open spec fn seq_sum(s: Seq<u64>) -> int
    decreases s.len(),
{
    if s.len() == 0 {
        0
    } else {
        seq_sum(s.drop_last()) + s.last() as int
    }
}

/// The least value of a non-empty sequence.
pub open spec fn seq_min(s: Seq<u64>) -> u64
    decreases s.len(),
{
    if s.len() <= 1 {
        s[0]
    } else {
        let m = seq_min(s.drop_last());
        if s.last() < m {
            s.last()
        } else {
            m
        }
    }
}

/// The greatest value of a non-empty sequence.
pub open spec fn seq_max(s: Seq<u64>) -> u64
    decreases s.len(),
{
    if s.len() <= 1 {
        s[0]
    } else {
        let m = seq_max(s.drop_last());
        if s.last() > m {
            s.last()
        } else {
            m
        }
    }
}

proof fn lemma_sum_bound(s: Seq<u64>)
    ensures
        0 <= seq_sum(s) <= s.len() * (u64::MAX as int),
    decreases s.len(),
{
    if s.len() > 0 {
        lemma_sum_bound(s.drop_last());
    }
}

/// Minimum, maximum and mean (rounded down) of the recent latencies, in ms.
#[derive(Clone, Copy, Debug, PartialEq, Eq, Structural)]
pub struct LatencyStats {
    pub min_ms: u64,
    pub max_ms: u64,
    pub average_ms: u64,
    pub count: usize,
}

/// The statistics of a non-empty sequence of latencies.
pub open spec fn stats_of(s: Seq<u64>) -> LatencyStats {
    LatencyStats {
        min_ms: seq_min(s),
        max_ms: seq_max(s),
        average_ms: (seq_sum(s) / (s.len() as int)) as u64,
        count: s.len() as usize,
    }
}

/// Statistics of `lat`, or `None` when it is empty.
pub fn latency_stats(lat: &VecDeque<u64>) -> (r: Option<LatencyStats>)
    requires
        lat@.len() <= MAX_COMPLETED,
    ensures
        lat@.len() == 0 ==> r is None,
        lat@.len() > 0 ==> r == Some(stats_of(lat@)),
{
    let n = lat.len();
    if n == 0 {
        return None;
    }
    let mut sum: u128 = 0;
    let mut lo: u64 = lat[0];
    let mut hi: u64 = lat[0];
    let mut i: usize = 0;
    while i < n
        invariant
            0 < n <= MAX_COMPLETED,
            n == lat@.len(),
            i <= n,
            sum as int == seq_sum(lat@.subrange(0, i as int)),
            i == 0 ==> lo == lat@[0] && hi == lat@[0],
            i > 0 ==> lo == seq_min(lat@.subrange(0, i as int)),
            i > 0 ==> hi == seq_max(lat@.subrange(0, i as int)),
        decreases n - i,
    {
        let x = lat[i];
        proof {
            let t = lat@.subrange(0, i as int + 1);
            assert(t.drop_last() == lat@.subrange(0, i as int));
            assert(t.last() == x);
            lemma_sum_bound(lat@.subrange(0, i as int));
            assert(i * (u64::MAX as int) <= 100 * (u64::MAX as int)) by (nonlinear_arith)
                requires
                    i <= 100,
            ;
        }
        sum = sum + x as u128;
        if i == 0 {
            lo = x;
            hi = x;
        } else {
            if x < lo {
                lo = x;
            }
            if x > hi {
                hi = x;
            }
        }
        i = i + 1;
    }
    proof {
        assert(lat@.subrange(0, n as int) == lat@);
        lemma_sum_bound(lat@);
        assert(seq_sum(lat@) / (n as int) <= u64::MAX) by (nonlinear_arith)
            requires
                0 <= seq_sum(lat@) <= n * (u64::MAX as int),
                n > 0,
        ;
    }
    let avg = (sum / (n as u128)) as u64;
    Some(LatencyStats { min_ms: lo, max_ms: hi, average_ms: avg, count: n })
}

/// The tracker seen mathematically.
pub struct TrackerView {
    /// Dispatched turns awaiting an answer: (turn id, dispatch time).
    pub pending: Seq<(u64, u64)>,
    /// Latencies of the most recent answers, oldest first.
    pub completed: Seq<u64>,
}

/// Tracks dispatched turns and the latency of their answers, answers being
/// matched to turns in dispatch order.
pub struct TurnTracker {
    pending_turns: VecDeque<(u64, u64)>,
    completed_turns: VecDeque<u64>,
}

impl View for TurnTracker {
    type V = TrackerView;

    closed spec fn view(&self) -> TrackerView {
        TrackerView { pending: self.pending_turns@, completed: self.completed_turns@ }
    }
}

impl TurnTracker {
    pub closed spec fn wf(&self) -> bool {
        self.completed_turns@.len() <= MAX_COMPLETED
    }

    pub fn new() -> (r: Self)
        ensures
            r.wf(),
            r@.pending.len() == 0,
            r@.completed.len() == 0,
    {
        TurnTracker { pending_turns: VecDeque::new(), completed_turns: VecDeque::new() }
    }

    /// Records the dispatch of turn `turn_id` at time `now_ms`.
    pub fn start_turn(&mut self, turn_id: u64, now_ms: u64)
        requires
            old(self).wf(),
        ensures
            final(self).wf(),
            final(self)@.pending == old(self)@.pending.push((turn_id, now_ms)),
            final(self)@.completed == old(self)@.completed,
    {
        self.pending_turns.push_back((turn_id, now_ms));
    }

    /// Matches an answer at time `now_ms` to the oldest pending turn; returns
    /// that turn's id and latency, or `None` when no turn is pending.
    pub fn complete_turn(&mut self, now_ms: u64) -> (r: Option<(u64, u64)>)
        requires
            old(self).wf(),
        ensures
            final(self).wf(),
            old(self)@.pending.len() == 0 ==> r is None && final(self)@ == old(self)@,
            old(self)@.pending.len() > 0 ==> {
                let (id, start) = old(self)@.pending[0];
                let lat = (if now_ms >= start {
                    now_ms - start
                } else {
                    0
                }) as u64;
                let c = old(self)@.completed.push(lat);
                &&& r == Some((id, lat))
                &&& final(self)@.pending == old(self)@.pending.drop_first()
                &&& final(self)@.completed == if c.len() > MAX_COMPLETED {
                    c.drop_first()
                } else {
                    c
                }
            },
    {
        match self.pending_turns.pop_front() {
            Some(p) => {
                let lat = if now_ms >= p.1 {
                    now_ms - p.1
                } else {
                    0
                };
                self.completed_turns.push_back(lat);
                if self.completed_turns.len() > MAX_COMPLETED {
                    self.completed_turns.pop_front();
                }
                Some((p.0, lat))
            },
            None => None,
        }
    }

    /// Number of turns awaiting an answer.
    pub fn pending_count(&self) -> (r: usize)
        ensures
            r == self@.pending.len(),
    {
        self.pending_turns.len()
    }

    /// Statistics of the recent latencies, if any.
    pub fn stats(&self) -> (r: Option<LatencyStats>)
        requires
            self.wf(),
        ensures
            self@.completed.len() == 0 ==> r is None,
            self@.completed.len() > 0 ==> r == Some(stats_of(self@.completed)),
    {
        latency_stats(&self.completed_turns)
    }

    /// Mean of the recent latencies in ms, rounded down, if any.
    pub fn average_latency(&self) -> (r: Option<u64>)
        requires
            self.wf(),
        ensures
            self@.completed.len() == 0 ==> r is None,
            self@.completed.len() > 0 ==> r == Some(stats_of(self@.completed).average_ms),
    {
        match self.stats() {
            Some(s) => Some(s.average_ms),
            None => None,
        }
    }
}

} // verus!
