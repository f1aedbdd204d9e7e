//! The segment emitter: turns committed boundaries into segments, in strict
//! id order.
use crate::boundary::{BoundaryEvent, BoundaryEventView};
use crate::config::SegConfig;
use crate::ring::{AudioRingBuffer, RingView};
use std::collections::{BTreeMap, VecDeque};
use vstd::prelude::*;

verus! {

/// Why a segment was closed.
#[derive(Clone, Copy, Debug, PartialEq, Eq, Structural)]
pub enum CloseReason {
    Silence,
    MaxLength,
    AsrClause,
}

/// A completed segment: its id, its samples, why it closed, and its
/// transcript if one is known.
#[derive(Clone, Debug)]
pub struct SegmentedTurn {
    pub id: u64,
    pub audio: Vec<i16>,
    pub close_reason: CloseReason,
    pub text: Option<String>,
}

/// A segment seen mathematically.
pub struct SegView {
    pub id: u64,
    pub audio: Seq<i16>,
    pub close_reason: CloseReason,
    pub text: Option<Seq<char>>,
}

pub open spec fn text_view(t: Option<String>) -> Option<Seq<char>> {
    match t {
        Some(s) => Some(s@),
        None => None,
    }
}

impl View for SegmentedTurn {
    type V = SegView;

    open spec fn view(&self) -> SegView {
        SegView {
            id: self.id,
            audio: self.audio@,
            close_reason: self.close_reason,
            text: text_view(self.text),
        }
    }
}

/// A boundary waiting to be emitted.
#[derive(Debug)]
pub struct SegmentCommit {
    pub id: u64,
    pub range: std::ops::Range<usize>,
    pub reason: CloseReason,
    pub text: Option<String>,
    /// When the boundary was committed, in ms on the caller's clock.
    pub timestamp_ms: u64,
}

/// The commit for a boundary with id `id`, made at time `now`.
pub open spec fn commit_matches(c: SegmentCommit, e: BoundaryEventView, id: u64, now: u64) -> bool {
    &&& c.id == id
    &&& c.timestamp_ms == now
    &&& match e {
        BoundaryEventView::SilenceClose(a, b) => c.range.start == a && c.range.end == b && c.reason
            == CloseReason::Silence && c.text is None,
        BoundaryEventView::MaxLenClose(a, b) => c.range.start == a && c.range.end == b && c.reason
            == CloseReason::MaxLength && c.text is None,
        BoundaryEventView::AsrClose(a, b, t) => c.range.start == a && c.range.end == b && c.reason
            == CloseReason::AsrClause && text_view(c.text) == Some(t),
    }
}

/// A commit still waits for its transcript at time `now`: it has none, it was
/// not closed by a clause, and less than `timeout` ms have passed.
pub open spec fn waits(c: SegmentCommit, now: u64, timeout: u64) -> bool {
    c.text is None && c.reason != CloseReason::AsrClause && (if now >= c.timestamp_ms {
        now - c.timestamp_ms
    } else {
        0
    }) < timeout
}

/// The segment emitted for commit `c` under id `id`, with samples `audio`.
pub open spec fn segment_of(c: SegmentCommit, id: u64, audio: Seq<i16>) -> SegView {
    SegView { id, audio, close_reason: c.reason, text: text_view(c.text) }
}

/// Draining: while the commit with id `next` is present and no longer waits,
/// it leaves the pending map and, if the ring still holds its range, becomes a
/// segment; either way `next` advances. Gives the remaining map, the next id,
/// and the segments in order.
pub open spec fn drain(
    pending: Map<u64, SegmentCommit>,
    next: u64,
    ring: RingView,
    now: u64,
    timeout: u64,
) -> (Map<u64, SegmentCommit>, u64, Seq<SegView>)
    decreases u64::MAX - next,
{
    if next < u64::MAX && pending.contains_key(next) && !waits(pending[next], now, timeout) {
        let c = pending[next];
        let rest = drain(pending.remove(next), (next + 1) as u64, ring, now, timeout);
        if ring.available(c.range.start as int, c.range.end as int) {
            (
                rest.0,
                rest.1,
                seq![segment_of(c, next, ring.range_samples(c.range.start as int, c.range.end as int))]
                    + rest.2,
            )
        } else {
            rest
        }
    } else {
        (pending, next, Seq::empty())
    }
}

/// The emitter seen mathematically.
pub struct EmitterView {
    pub config: SegConfig,
    pub ring: RingView,
    pub pending: Map<u64, SegmentCommit>,
    pub next_emit_id: u64,
    pub queue: Seq<SegView>,
    /// Ids of every segment ever emitted, in order.
    pub emitted: Seq<u64>,
    /// Ids that were resolved without a segment, their audio being gone.
    pub skipped: Set<u64>,
}

/// Joins boundaries with late transcripts and emits segments in ascending
/// id order, without gaps: each id is emitted or skipped.
pub struct SegmentEmitter {
    config: SegConfig,
    ring_buffer: AudioRingBuffer,
    pending_commits: BTreeMap<u64, SegmentCommit>,
    next_emit_id: u64,
    output_queue: VecDeque<SegmentedTurn>,
    emitted: Ghost<Seq<u64>>,
    skipped: Ghost<Set<u64>>,
}

pub open spec fn queue_view(q: Seq<SegmentedTurn>) -> Seq<SegView> {
    q.map_values(|t: SegmentedTurn| t@)
}

/// The emission order: emitted ids strictly increase; every id below
/// `next_emit_id` (ids start at 1) was either emitted or skipped, not both; no
/// id at or above it was either; the queue holds the latest emitted segments.
pub open spec fn emission_ok(v: EmitterView) -> bool {
    &&& v.next_emit_id >= 1
    &&& forall|i: int, j: int| 0 <= i < j < v.emitted.len() ==> v.emitted[i] < v.emitted[j]
    &&& forall|i: int| 0 <= i < v.emitted.len() ==> 1 <= #[trigger] v.emitted[i] < v.next_emit_id
    &&& forall|id: u64| #[trigger] v.skipped.contains(id) ==> 1 <= id < v.next_emit_id
    &&& forall|id: u64|
        1 <= id < v.next_emit_id ==> (v.emitted.contains(id) != #[trigger] v.skipped.contains(id))
    &&& v.queue.len() <= v.emitted.len()
    &&& forall|i: int|
        0 <= i < v.queue.len() ==> (#[trigger] v.queue[i]).id == v.emitted[v.emitted.len()
            - v.queue.len() + i]
}

proof fn lemma_emit_one(v: EmitterView, w: EmitterView, sv: SegView)
    requires
        emission_ok(v),
        v.next_emit_id < u64::MAX,
        sv.id == v.next_emit_id,
        w.emitted == v.emitted.push(v.next_emit_id),
        w.queue == v.queue.push(sv),
        w.skipped == v.skipped,
        w.next_emit_id == v.next_emit_id + 1,
    ensures
        emission_ok(w),
{
    let next = v.next_emit_id;
    assert forall|i: int, j: int| 0 <= i < j < w.emitted.len() implies w.emitted[i]
        < w.emitted[j] by {
        if j == w.emitted.len() - 1 {
            assert(v.emitted[i] < next);
        } else {
            assert(v.emitted[i] < v.emitted[j]);
        }
    }
    assert forall|i: int| 0 <= i < w.emitted.len() implies 1 <= #[trigger] w.emitted[i]
        < w.next_emit_id by {
        if i < v.emitted.len() {
            assert(w.emitted[i] == v.emitted[i]);
        }
    }
    assert forall|id: u64| 1 <= id < w.next_emit_id implies (w.emitted.contains(id)
        != #[trigger] w.skipped.contains(id)) by {
        if id < next {
            if w.emitted.contains(id) {
                let k = choose|k: int| 0 <= k < w.emitted.len() && w.emitted[k] == id;
                assert(k < v.emitted.len());
                assert(v.emitted[k] == id);
                assert(v.emitted.contains(id));
            }
            if v.emitted.contains(id) {
                let k = choose|k: int| 0 <= k < v.emitted.len() && v.emitted[k] == id;
                assert(w.emitted[k] == id);
            }
        } else {
            assert(w.emitted[w.emitted.len() - 1] == id);
            assert(!v.skipped.contains(id));
        }
    }
    assert forall|i: int| 0 <= i < w.queue.len() implies (#[trigger] w.queue[i]).id
        == w.emitted[w.emitted.len() - w.queue.len() + i] by {
        if i < v.queue.len() {
            assert(w.queue[i] == v.queue[i]);
            assert(v.queue[i].id == v.emitted[v.emitted.len() - v.queue.len() + i]);
        }
    }
}

proof fn lemma_same_order(v: EmitterView, w: EmitterView)
    requires
        emission_ok(v),
        w.emitted == v.emitted,
        w.queue == v.queue,
        w.skipped == v.skipped,
        w.next_emit_id == v.next_emit_id,
    ensures
        emission_ok(w),
{
}

proof fn lemma_pop_one(v: EmitterView, w: EmitterView)
    requires
        emission_ok(v),
        v.queue.len() > 0,
        w.emitted == v.emitted,
        w.queue == v.queue.drop_first(),
        w.skipped == v.skipped,
        w.next_emit_id == v.next_emit_id,
    ensures
        emission_ok(w),
{
    assert forall|i: int| 0 <= i < w.queue.len() implies (#[trigger] w.queue[i]).id
        == w.emitted[w.emitted.len() - w.queue.len() + i] by {
        assert(w.queue[i] == v.queue[i + 1]);
    }
}

proof fn lemma_skip_one(v: EmitterView, w: EmitterView)
    requires
        emission_ok(v),
        v.next_emit_id < u64::MAX,
        w.emitted == v.emitted,
        w.queue == v.queue,
        w.skipped == v.skipped.insert(v.next_emit_id),
        w.next_emit_id == v.next_emit_id + 1,
    ensures
        emission_ok(w),
{
    let next = v.next_emit_id;
    assert forall|id: u64| 1 <= id < w.next_emit_id implies (w.emitted.contains(id)
        != #[trigger] w.skipped.contains(id)) by {
        if id == next {
            if v.emitted.contains(id) {
                let k = choose|k: int| 0 <= k < v.emitted.len() && v.emitted[k] == id;
                assert(v.emitted[k] < next);
            }
        }
    }
}

impl View for SegmentEmitter {
    type V = EmitterView;

    closed spec fn view(&self) -> EmitterView {
        EmitterView {
            config: self.config,
            ring: self.ring_buffer@,
            pending: self.pending_commits@,
            next_emit_id: self.next_emit_id,
            queue: queue_view(self.output_queue@),
            emitted: self.emitted@,
            skipped: self.skipped@,
        }
    }
}

impl SegmentEmitter {
    pub closed spec fn wf(&self) -> bool {
        &&& self.ring_buffer.wf()
        &&& emission_ok(self@)
    }

    /// An emitter over `ring_buffer` that expects segment 1 first.
    pub fn new(config: SegConfig, ring_buffer: AudioRingBuffer) -> (r: Self)
        requires
            ring_buffer.wf(),
        ensures
            r.wf(),
            r@.config == config,
            r@.ring == ring_buffer@,
            r@.pending == Map::<u64, SegmentCommit>::empty(),
            r@.next_emit_id == 1,
            r@.queue.len() == 0,
            r@.emitted.len() == 0,
            r@.skipped == Set::<u64>::empty(),
    {
        let r = SegmentEmitter {
            config,
            ring_buffer,
            pending_commits: BTreeMap::new(),
            next_emit_id: 1,
            output_queue: VecDeque::new(),
            emitted: Ghost(Seq::empty()),
            skipped: Ghost(Set::empty()),
        };
        proof {
            assert(r@.queue =~= Seq::<SegView>::empty());
        }
        r
    }

    /// The ring the emitter reads from.
    pub fn ring(&self) -> (r: &AudioRingBuffer)
        requires
            self.wf(),
        ensures
            r@ == self@.ring,
            r.wf(),
    {
        &self.ring_buffer
    }

    /// Appends samples to the ring; returns the global index of the first.
    pub fn push_samples(&mut self, samples: &[i16]) -> (first: usize)
        requires
            old(self).wf(),
            old(self)@.ring.current_global() + samples@.len() <= usize::MAX,
        ensures
            final(self).wf(),
            first == old(self)@.ring.current_global(),
            final(self)@ == (EmitterView {
                ring: RingView {
                    history: old(self)@.ring.history + samples@,
                    ..old(self)@.ring
                },
                ..old(self)@
            }),
    {
        self.ring_buffer.push_frame(samples)
    }

    /// Records a boundary under id `seg_id` at time `now_ms`, then emits what
    /// has become ready.
    pub fn process_boundary_event(&mut self, event: BoundaryEvent, seg_id: u64, now_ms: u64)
        requires
            old(self).wf(),
        ensures
            final(self).wf(),
            exists|c: SegmentCommit|
                commit_matches(c, event@, seg_id, now_ms) && {
                    let d = drain(
                        old(self)@.pending.insert(seg_id, c),
                        old(self)@.next_emit_id,
                        old(self)@.ring,
                        now_ms,
                        old(self)@.config.asr_timeout_ms,
                    );
                    &&& final(self)@.pending == d.0
                    &&& final(self)@.next_emit_id == d.1
                    &&& final(self)@.queue == old(self)@.queue + d.2
                },
            final(self)@.ring == old(self)@.ring,
            final(self)@.config == old(self)@.config,
    {
        let ghost ev = event@;
        let commit = match event {
            BoundaryEvent::SilenceClose(start, end) => SegmentCommit {
                id: seg_id,
                range: std::ops::Range { start, end },
                reason: CloseReason::Silence,
                text: None,
                timestamp_ms: now_ms,
            },
            BoundaryEvent::MaxLenClose(start, end) => SegmentCommit {
                id: seg_id,
                range: std::ops::Range { start, end },
                reason: CloseReason::MaxLength,
                text: None,
                timestamp_ms: now_ms,
            },
            BoundaryEvent::AsrClose(start, end, text) => SegmentCommit {
                id: seg_id,
                range: std::ops::Range { start, end },
                reason: CloseReason::AsrClause,
                text: Some(text),
                timestamp_ms: now_ms,
            },
        };
        let ghost c = commit;
        assert(commit_matches(c, ev, seg_id, now_ms));
        let ghost vb = self@;
        self.pending_commits.insert(seg_id, commit);
        proof {
            lemma_same_order(vb, self@);
        }
        self.try_emit_ready_segments(now_ms);
    }

    /// Gives the segment `seg_id` its transcript, if it is pending and has
    /// none, then emits what has become ready; otherwise changes nothing.
    pub fn add_transcript(&mut self, seg_id: u64, text: String, now_ms: u64)
        requires
            old(self).wf(),
        ensures
            final(self).wf(),
            final(self)@.ring == old(self)@.ring,
            final(self)@.config == old(self)@.config,
            if old(self)@.pending.contains_key(seg_id) && old(self)@.pending[seg_id].text is None {
                let c = old(self)@.pending[seg_id];
                let d = drain(
                    old(self)@.pending.insert(
                        seg_id,
                        SegmentCommit {
                            id: c.id,
                            range: c.range,
                            reason: c.reason,
                            text: Some(text),
                            timestamp_ms: c.timestamp_ms,
                        },
                    ),
                    old(self)@.next_emit_id,
                    old(self)@.ring,
                    now_ms,
                    old(self)@.config.asr_timeout_ms,
                );
                &&& final(self)@.pending == d.0
                &&& final(self)@.next_emit_id == d.1
                &&& final(self)@.queue == old(self)@.queue + d.2
            } else {
                final(self)@ == old(self)@
            },
    {
        match self.pending_commits.remove(&seg_id) {
            Some(c) => {
                if c.text.is_none() {
                    let updated = SegmentCommit {
                        id: c.id,
                        range: c.range,
                        reason: c.reason,
                        text: Some(text),
                        timestamp_ms: c.timestamp_ms,
                    };
                    self.pending_commits.insert(seg_id, updated);
                    proof {
                        assert(self.pending_commits@ =~= old(self)@.pending.insert(seg_id, updated));
                        lemma_same_order(old(self)@, self@);
                    }
                    self.try_emit_ready_segments(now_ms);
                } else {
                    self.pending_commits.insert(seg_id, c);
                    proof {
                        assert(self.pending_commits@ =~= old(self)@.pending);
                        lemma_same_order(old(self)@, self@);
                    }
                }
            },
            None => {
                proof {
                    assert(self.pending_commits@ =~= old(self)@.pending);
                    lemma_same_order(old(self)@, self@);
                }
            },
        }
    }

    /// Emits, in id order, every commit from `next_emit_id` on that no longer
    /// waits for a transcript at time `now_ms`; a commit whose audio has left
    /// the ring is skipped.
    pub fn try_emit_ready_segments(&mut self, now_ms: u64)
        requires
            old(self).wf(),
        ensures
            final(self).wf(),
            ({
                let d = drain(
                    old(self)@.pending,
                    old(self)@.next_emit_id,
                    old(self)@.ring,
                    now_ms,
                    old(self)@.config.asr_timeout_ms,
                );
                &&& final(self)@.pending == d.0
                &&& final(self)@.next_emit_id == d.1
                &&& final(self)@.queue == old(self)@.queue + d.2
            }),
            final(self)@.ring == old(self)@.ring,
            final(self)@.config == old(self)@.config,
    {
        let ghost v0 = self@;
        let timeout = self.config.asr_timeout_ms;
        loop
            invariant
                self.wf(),
                self@.ring == v0.ring,
                self@.config == v0.config,
                timeout == v0.config.asr_timeout_ms,
                ({
                    let d0 = drain(v0.pending, v0.next_emit_id, v0.ring, now_ms, timeout);
                    let d = drain(self@.pending, self@.next_emit_id, v0.ring, now_ms, timeout);
                    &&& d0.0 == d.0
                    &&& d0.1 == d.1
                    &&& v0.queue + d0.2 == self@.queue + d.2
                }),
            ensures
                self.wf(),
                self@.ring == v0.ring,
                self@.config == v0.config,
                ({
                    let d0 = drain(v0.pending, v0.next_emit_id, v0.ring, now_ms, timeout);
                    &&& d0.0 == self@.pending
                    &&& d0.1 == self@.next_emit_id
                    &&& v0.queue + d0.2 == self@.queue
                }),
            decreases u64::MAX - self.next_emit_id,
        {
            let next = self.next_emit_id;
            if next == u64::MAX {
                proof {
                    assert(self@.queue + Seq::<SegView>::empty() =~= self@.queue);
                    assert(drain(self@.pending, self@.next_emit_id, v0.ring, now_ms, timeout) == (
                        self@.pending,
                        self@.next_emit_id,
                        Seq::<SegView>::empty(),
                    ));
                }
                break;
            }
            let ready = match self.pending_commits.get(&next) {
                Some(c) => {
                    let elapsed = if now_ms >= c.timestamp_ms {
                        now_ms - c.timestamp_ms
                    } else {
                        0
                    };
                    !(c.text.is_none() && c.reason != CloseReason::AsrClause && elapsed < timeout)
                },
                None => false,
            };
            if !ready {
                proof {
                    assert(self@.queue + Seq::<SegView>::empty() =~= self@.queue);
                    assert(drain(self@.pending, self@.next_emit_id, v0.ring, now_ms, timeout) == (
                        self@.pending,
                        self@.next_emit_id,
                        Seq::<SegView>::empty(),
                    ));
                }
                break;
            }
            let ghost vb = self@;
            let commit = match self.pending_commits.remove(&next) {
                Some(c) => c,
                None => {
                    proof {
                        assert(false);
                    }
                    break;
                },
            };
            let ghost c = commit;
            assert(c == vb.pending[next]);
            assert(self.pending_commits@ == vb.pending.remove(next));
            let range = std::ops::Range { start: commit.range.start, end: commit.range.end };
            match self.ring_buffer.get_range(range) {
                Some(pcm) => {
                    let segment = SegmentedTurn {
                        id: next,
                        audio: pcm,
                        close_reason: commit.reason,
                        text: commit.text,
                    };
                    let ghost sv = segment@;
                    self.output_queue.push_back(segment);
                    self.next_emit_id = next + 1;
                    proof {
                        self.emitted@ = self.emitted@.push(next);
                        assert(queue_view(self.output_queue@) =~= vb.queue.push(sv));
                        assert(sv == segment_of(
                            c,
                            next,
                            v0.ring.range_samples(c.range.start as int, c.range.end as int),
                        ));
                        lemma_emit_one(vb, self@, sv);
                        let rest = drain(vb.pending.remove(next), (next + 1) as u64, v0.ring, now_ms, timeout);
                        assert(drain(vb.pending, next, v0.ring, now_ms, timeout).2 == seq![sv] + rest.2);
                        assert(vb.queue + (seq![sv] + rest.2) =~= self@.queue + rest.2);
                    }
                },
                None => {
                    self.next_emit_id = next + 1;
                    proof {
                        self.skipped@ = self.skipped@.insert(next);
                        lemma_skip_one(vb, self@);
                    }
                },
            }
        }
    }

    /// Emits what has become ready at time `now_ms`, then hands out the oldest
    /// emitted segment not yet handed out.
    pub fn pop_segment(&mut self, now_ms: u64) -> (r: Option<SegmentedTurn>)
        requires
            old(self).wf(),
        ensures
            final(self).wf(),
            ({
                let d = drain(
                    old(self)@.pending,
                    old(self)@.next_emit_id,
                    old(self)@.ring,
                    now_ms,
                    old(self)@.config.asr_timeout_ms,
                );
                let q = old(self)@.queue + d.2;
                &&& final(self)@.pending == d.0
                &&& final(self)@.next_emit_id == d.1
                &&& if q.len() == 0 {
                    r is None && final(self)@.queue.len() == 0
                } else {
                    r matches Some(t) && t@ == q[0] && final(self)@.queue == q.drop_first()
                }
            }),
            final(self)@.ring == old(self)@.ring,
            final(self)@.config == old(self)@.config,
    {
        self.try_emit_ready_segments(now_ms);
        let ghost vq = self@.queue;
        let ghost vb = self@;
        let r = self.output_queue.pop_front();
        proof {
            if vq.len() > 0 {
                assert(queue_view(self.output_queue@) =~= vq.drop_first());
                lemma_pop_one(vb, self@);
            } else {
                lemma_same_order(vb, self@);
            }
        }
        r
    }

    /// The id of the next segment to emit.
    pub fn next_emit_id(&self) -> (r: u64)
        ensures
            r == self@.next_emit_id,
    {
        self.next_emit_id
    }
}

/// Emission order: the ids of emitted segments strictly increase, and every
/// id below the emitter's next id was either emitted or explicitly skipped,
/// never both, so there are no gaps.
pub proof fn lemma_emission_order(e: &SegmentEmitter)
    requires
        e.wf(),
    ensures
        forall|i: int, j: int| 0 <= i < j < e@.emitted.len() ==> e@.emitted[i] < e@.emitted[j],
        forall|id: u64|
            1 <= id < e@.next_emit_id ==> (e@.emitted.contains(id) != #[trigger] e@.skipped.contains(
                id,
            )),
        forall|i: int| 0 <= i < e@.emitted.len() ==> #[trigger] e@.emitted[i] < e@.next_emit_id,
        forall|i: int|
            0 <= i < e@.queue.len() ==> (#[trigger] e@.queue[i]).id == e@.emitted[e@.emitted.len()
                - e@.queue.len() + i],
{
}

} // verus!
