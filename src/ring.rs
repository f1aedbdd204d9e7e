//! Audio ring buffer addressed by global sample index.
use vstd::prelude::*;

verus! {

/// What a ring buffer holds, seen mathematically: every sample ever pushed,
/// named by its global index, and the number of recent samples it keeps.
pub struct RingView {
    pub history: Seq<i16>,
    pub capacity: nat,
}

impl RingView {
    /// One past the most recently written sample.
    pub open spec fn current_global(self) -> nat {
        self.history.len()
    }

    /// The oldest global index that is still readable.
    pub open spec fn window_start(self) -> nat {
        if self.history.len() >= self.capacity {
            (self.history.len() - self.capacity) as nat
        } else {
            0
        }
    }

    /// A range `[start, end)` can be read back.
    pub open spec fn available(self, start: int, end: int) -> bool {
        self.window_start() <= start && end <= self.current_global()
    }

    /// The samples of `[start, end)`; empty where `start >= end`.
    pub open spec fn range_samples(self, start: int, end: int) -> Seq<i16> {
        if start < end {
            self.history.subrange(start, end)
        } else {
            Seq::empty()
        }
    }
}

/// Fixed-capacity store of the most recent PCM samples, named by the global
/// index of each sample since the stream began.
pub struct AudioRingBuffer {
    buffer: Vec<i16>,
    capacity: usize,
    global_idx: usize,
    history: Ghost<Seq<i16>>,
}

proof fn lemma_mod_distinct(a: int, b: int, m: int)
    requires
        0 <= a < b,
        b < a + m,
    ensures
        a % m != b % m,
{
    vstd::arithmetic::div_mod::lemma_fundamental_div_mod(a, m);
    vstd::arithmetic::div_mod::lemma_fundamental_div_mod(b, m);
    let qa = a / m;
    let qb = b / m;
    let ra = a % m;
    let rb = b % m;
    if ra == rb {
        assert(m * (qb - qa) == b - a) by (nonlinear_arith)
            requires
                a == m * qa + ra,
                b == m * qb + rb,
                ra == rb,
        ;
        if qb - qa >= 1 {
            assert(m * (qb - qa) >= m) by (nonlinear_arith)
                requires
                    qb - qa >= 1,
                    m > 0,
            ;
        } else {
            assert(m * (qb - qa) <= 0) by (nonlinear_arith)
                requires
                    qb - qa <= 0,
                    m > 0,
            ;
        }
    }
}

impl View for AudioRingBuffer {
    type V = RingView;

    closed spec fn view(&self) -> RingView {
        RingView { history: self.history@, capacity: self.capacity as nat }
    }
}

impl AudioRingBuffer {
    /// The buffer's storage agrees with its history on the readable window.
    pub closed spec fn wf(&self) -> bool {
        &&& self.capacity > 0
        &&& self.buffer@.len() == self.capacity
        &&& self.history@.len() == self.global_idx
        &&& forall|g: int|
            self@.window_start() <= g < self.global_idx ==> #[trigger] self.buffer@[g
                % (self.capacity as int)] == self.history@[g]
    }

    /// An empty ring that keeps the last `capacity` samples.
    pub fn new(capacity: usize) -> (r: Self)
        requires
            capacity > 0,
        ensures
            r.wf(),
            r@.history == Seq::<i16>::empty(),
            r@.capacity == capacity,
    {
        AudioRingBuffer {
            buffer: vec![0i16; capacity],
            capacity,
            global_idx: 0,
            history: Ghost(Seq::empty()),
        }
    }

    /// Appends `samples`; returns the global index of the first of them.
    pub fn push_frame(&mut self, samples: &[i16]) -> (first: usize)
        requires
            old(self).wf(),
            old(self)@.current_global() + samples@.len() <= usize::MAX,
        ensures
            final(self).wf(),
            first == old(self)@.current_global(),
            final(self)@.history == old(self)@.history + samples@,
            final(self)@.capacity == old(self)@.capacity,
    {
        let start = self.global_idx;
        let n = samples.len();
        let cap = self.capacity;
        let ghost h0 = self.history@;
        let mut i: usize = 0;
        while i < n
            invariant
                0 <= i <= n,
                n == samples@.len(),
                start as int + n <= usize::MAX,
                cap == self.capacity,
                cap > 0,
                self.buffer@.len() == cap,
                self.global_idx == start + i,
                h0.len() == start,
                self.history@ == h0 + samples@.subrange(0, i as int),
                forall|g: int|
                    self@.window_start() <= g < self.global_idx ==> #[trigger] self.buffer@[g
                        % (cap as int)] == self.history@[g],
            decreases n - i,
        {
            let pos = (start + i) % cap;
            let ghost old_buf = self.buffer@;
            let ghost old_hist = self.history@;
            self.buffer.set(pos, samples[i]);
            self.global_idx = start + i + 1;
            proof {
                self.history@ = old_hist.push(samples@[i as int]);
                assert(samples@.subrange(0, i as int + 1) == samples@.subrange(0, i as int).push(
                    samples@[i as int],
                ));
                assert forall|g: int|
                    self@.window_start() <= g < self.global_idx implies #[trigger] self.buffer@[g
                        % (cap as int)] == self.history@[g] by {
                    if g < start + i {
                        lemma_mod_distinct(g, start + i, cap as int);
                        assert(old_buf[g % (cap as int)] == old_hist[g]);
                    }
                }
            }
            i = i + 1;
        }
        assert(samples@.subrange(0, n as int) == samples@);
        start
    }

    /// Copies out the samples of `range`, or `None` where part of it is older
    /// than the window or not yet written.
    pub fn get_range(&self, range: std::ops::Range<usize>) -> (r: Option<Vec<i16>>)
        requires
            self.wf(),
        ensures
            r is None <==> !self@.available(range.start as int, range.end as int),
            r matches Some(v) ==> v@ == self@.range_samples(range.start as int, range.end as int),
    {
        let current = self.global_idx;
        let available_start = if current >= self.capacity {
            current - self.capacity
        } else {
            0
        };
        if range.start < available_start || range.end > current {
            return None;
        }
        let mut result: Vec<i16> = Vec::new();
        if range.start >= range.end {
            return Some(result);
        }
        let mut g = range.start;
        while g < range.end
            invariant
                self.wf(),
                current == self@.current_global(),
                available_start == self@.window_start(),
                range.start <= g <= range.end,
                range.end <= current,
                available_start <= range.start,
                result@ == self@.history.subrange(range.start as int, g as int),
            decreases range.end - g,
        {
            let pos = g % self.capacity;
            result.push(self.buffer[pos]);
            g = g + 1;
        }
        Some(result)
    }

    /// One past the most recently written sample.
    pub fn current_global_idx(&self) -> (r: usize)
        requires
            self.wf(),
        ensures
            r == self@.current_global(),
    {
        self.global_idx
    }

    /// Number of samples the ring keeps.
    pub fn capacity(&self) -> (r: usize)
        ensures
            r == self@.capacity,
    {
        self.capacity
    }
}

} // verus!
