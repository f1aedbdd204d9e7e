//! The audio segmenter: voice activity detection, boundaries, transcription
//! requests and segment emission for a stream of 20 ms frames.
use crate::boundary::{
    boundary_step, BoundaryEventView, BoundaryFSM, BoundaryState, BoundaryView, FrameMeta,
};
use crate::clause::AsrProposal;
use crate::config::SegConfig;
use crate::emitter::{
    commit_matches, drain, EmitterView, SegView, SegmentCommit, SegmentEmitter, SegmentedTurn,
};
use crate::pcm::{le_bytes_of, i16_slice_to_u8, FRAME_SAMPLES};
use crate::ring::{AudioRingBuffer, RingView};
use crate::wire::{Outgoing, OutgoingView};
use vstd::prelude::*;
use webrtc_vad::{SampleRate, Vad, VadMode};

verus! {

/// `webrtc_vad::Vad`, a voice activity detector, carried opaquely.
#[verifier::external_type_specification]
#[verifier::external_body]
pub struct ExVad(Vad);

/// Relies on `webrtc_vad::Vad::new_with_rate_and_mode`: a detector for 16 kHz
/// input in its most aggressive mode. It panics only when allocation fails.
#[verifier::external_body]
fn new_vad() -> (r: Vad) {
    Vad::new_with_rate_and_mode(SampleRate::Rate16kHz, VadMode::VeryAggressive)
}

/// Relies on `webrtc_vad::Vad::is_voice_segment`: the detector's decision for
/// one frame, or an error for a length it does not take. It indexes the first
/// sample, so the frame must not be empty.
#[verifier::external_body]
fn vad_is_voice(vad: &mut Vad, samples: &[i16]) -> (r: Result<bool, ()>)
    requires
        samples@.len() > 0,
{
    vad.is_voice_segment(samples)
}

/// A frame that is not 20 ms long: the number of samples it had.
#[derive(Clone, Copy, Debug, PartialEq, Eq, Structural)]
pub struct FrameSizeError {
    pub got: usize,
}

/// Labels 20 ms frames voiced or unvoiced.
pub struct FrameClassifier {
    vad: Vad,
}

impl FrameClassifier {
    pub fn new() -> (r: Self) {
        FrameClassifier { vad: new_vad() }
    }

    /// Classifies a frame of exactly 320 samples starting at `global_idx`; a
    /// detector error counts as unvoiced.
    pub fn classify_frame(&mut self, samples: &[i16], global_idx: usize, timestamp_ms: u64) -> (r:
        Result<FrameMeta, FrameSizeError>)
        ensures
            r is Err <==> samples@.len() != FRAME_SAMPLES,
            r matches Err(e) ==> e.got == samples@.len(),
            r matches Ok(m) ==> m.start_idx == global_idx && m.timestamp_ms == timestamp_ms,
    {
        if samples.len() != FRAME_SAMPLES {
            return Err(FrameSizeError { got: samples.len() });
        }
        let voiced = match vad_is_voice(&mut self.vad, samples) {
            Ok(v) => v,
            Err(_) => false,
        };
        Ok(FrameMeta { timestamp_ms, start_idx: global_idx, voiced })
    }
}

/// A transcription request: the open segment's id, its samples so far, and
/// their global index range.
#[derive(Debug)]
pub struct AsrRequest {
    pub id: u64,
    pub audio: Vec<i16>,
    pub global_range: std::ops::Range<usize>,
}

/// Minimum new audio, in samples, before a segment is transcribed again (0.5 s).
pub const ASR_MIN_NEW_SAMPLES: usize = 8000;

/// The segmenter seen mathematically.
pub struct SegmenterView {
    pub config: SegConfig,
    pub fsm: BoundaryView,
    pub emitter: EmitterView,
    pub last_asr_poll_ms: u64,
    pub last_asr_submit_idx: Option<usize>,
    pub outgoing: Seq<OutgoingView>,
    pub next_turn_id: u64,
    pub current_turn_id: Option<u64>,
    /// Requests not yet handed out: (id, samples, start, end).
    pub asr_requests: Seq<(u64, Seq<i16>, usize, usize)>,
}

/// The activity messages for one frame, given the turn open before it, the
/// next turn id, the boundary state after it, whether it closed a segment, and
/// its bytes: a turn starts when recording has no turn; audio goes out while a
/// turn is open and a segment is open; a close ends the turn. Gives the
/// messages, the open turn after, and the next turn id.
pub open spec fn frame_outgoing(
    turn: Option<u64>,
    next_turn: u64,
    state: BoundaryState,
    closed: bool,
    bytes: Seq<u8>,
) -> (Seq<OutgoingView>, Option<u64>, u64) {
    let (start, t1, n1) = if state is Recording && turn is None {
        (seq![OutgoingView::ActivityStart(next_turn)], Some(next_turn), (next_turn + 1) as u64)
    } else {
        (Seq::<OutgoingView>::empty(), turn, next_turn)
    };
    let audio = match t1 {
        Some(t) => if state is Recording || state is Committing {
            seq![OutgoingView::AudioChunk(bytes, t)]
        } else {
            Seq::<OutgoingView>::empty()
        },
        None => Seq::<OutgoingView>::empty(),
    };
    let (end, t2) = if closed {
        match t1 {
            Some(t) => (seq![OutgoingView::ActivityEnd(t)], None),
            None => (Seq::<OutgoingView>::empty(), None),
        }
    } else {
        (Seq::<OutgoingView>::empty(), t1)
    };
    (start + audio + end, t2, n1)
}

/// Where the open segment starts, if one is open.
pub open spec fn open_segment_start(s: BoundaryState) -> Option<usize> {
    match s {
        BoundaryState::Recording { seg_start_idx, .. } => Some(seg_start_idx),
        BoundaryState::Committing { seg_start_idx, .. } => Some(seg_start_idx),
        BoundaryState::Idle => None,
    }
}

/// One transcription poll: with a segment open at `start`, its audio so far
/// is requested once at least half a second is new since the last request;
/// gives the request, if any, and the index the next poll counts from.
pub open spec fn asr_poll(
    fsm: BoundaryView,
    ring: RingView,
    last_submit: Option<usize>,
) -> (Option<(u64, Seq<i16>, usize, usize)>, Option<usize>) {
    let cur = ring.current_global() as int;
    match open_segment_start(fsm.state) {
        None => (None, None),
        Some(start) => {
            let from: usize = match last_submit {
                Some(l) => if l < start {
                    start
                } else {
                    l
                },
                None => start,
            };
            if cur > from + ASR_MIN_NEW_SAMPLES && ring.available(start as int, cur) {
                (
                    Some((fsm.next_seg_id, ring.range_samples(start as int, cur), start, cur as usize)),
                    Some(cur as usize),
                )
            } else {
                (None, Some(from))
            }
        },
    }
}

/// The emitter after recording the boundary `closed`, if any, at time `now`.
pub open spec fn after_boundary(
    e0: EmitterView,
    closed: Option<(u64, BoundaryEventView)>,
    now: u64,
    e1: EmitterView,
) -> bool {
    match closed {
        None => e1 == e0,
        Some((id, ev)) => exists|c|
            commit_matches(c, ev, id, now) && {
                let d = drain(e0.pending.insert(id, c), e0.next_emit_id, e0.ring, now, e0.config.asr_timeout_ms);
                &&& e1.pending == d.0
                &&& e1.next_emit_id == d.1
                &&& e1.queue == e0.queue + d.2
                &&& e1.ring == e0.ring
                &&& e1.config == e0.config
            },
    }
}

/// What `pop_segment` at time `now` does to `e1`: the result `r` and the
/// emitter `e2` after it.
pub open spec fn popped(e1: EmitterView, now: u64, e2: EmitterView, r: Option<SegView>) -> bool {
    let d = drain(e1.pending, e1.next_emit_id, e1.ring, now, e1.config.asr_timeout_ms);
    let q = e1.queue + d.2;
    &&& e2.pending == d.0
    &&& e2.next_emit_id == d.1
    &&& e2.ring == e1.ring
    &&& e2.config == e1.config
    &&& if q.len() == 0 {
        r is None && e2.queue.len() == 0
    } else {
        r == Some(q[0]) && e2.queue == q.drop_first()
    }
}

/// Splits a 16 kHz mono stream into segments: each frame is stored, labelled,
/// fed to the boundary state machine and turned into activity messages;
/// transcription requests go out for open segments; finished segments come
/// out in id order.
pub struct AudioSegmenter {
    config: SegConfig,
    frame_classifier: FrameClassifier,
    boundary_fsm: BoundaryFSM,
    emitter: SegmentEmitter,
    last_asr_poll_ms: u64,
    last_asr_submit_idx: Option<usize>,
    outgoing: Vec<Outgoing>,
    next_turn_id: u64,
    current_turn_id: Option<u64>,
    asr_requests: Vec<AsrRequest>,
}

pub open spec fn outgoing_view(s: Seq<Outgoing>) -> Seq<OutgoingView> {
    s.map_values(|o: Outgoing| o@)
}

pub open spec fn requests_view(s: Seq<AsrRequest>) -> Seq<(u64, Seq<i16>, usize, usize)> {
    s.map_values(|q: AsrRequest| (q.id, q.audio@, q.global_range.start, q.global_range.end))
}

impl View for AudioSegmenter {
    type V = SegmenterView;

    closed spec fn view(&self) -> SegmenterView {
        SegmenterView {
            config: self.config,
            fsm: self.boundary_fsm@,
            emitter: self.emitter@,
            last_asr_poll_ms: self.last_asr_poll_ms,
            last_asr_submit_idx: self.last_asr_submit_idx,
            outgoing: outgoing_view(self.outgoing@),
            next_turn_id: self.next_turn_id,
            current_turn_id: self.current_turn_id,
            asr_requests: requests_view(self.asr_requests@),
        }
    }
}

pub open spec fn opt_seg_view(r: Option<SegmentedTurn>) -> Option<SegView> {
    match r {
        Some(t) => Some(t@),
        None => None,
    }
}

impl AudioSegmenter {
    pub closed spec fn wf(&self) -> bool {
        &&& self.boundary_fsm.wf()
        &&& self.emitter.wf()
        &&& self.boundary_fsm@.config == self.config
        &&& self.emitter@.config == self.config
    }

    /// A segmenter with an empty ring of `config.ring_capacity` samples.
    pub fn new(config: SegConfig) -> (r: Self)
        requires
            config.ring_capacity > 0,
        ensures
            r.wf(),
            r@.config == config,
            r@.fsm.config == config,
            r@.fsm.state == BoundaryState::Idle,
            r@.fsm.score == 0,
            r@.fsm.next_seg_id == 1,
            r@.fsm.proposals.len() == 0,
            r@.emitter.ring.history.len() == 0,
            r@.emitter.ring.capacity == config.ring_capacity,
            r@.emitter.next_emit_id == 1,
            r@.emitter.pending.dom().len() == 0,
            r@.emitter.queue.len() == 0,
            r@.outgoing.len() == 0,
            r@.asr_requests.len() == 0,
            r@.next_turn_id == 1,
            r@.current_turn_id is None,
            r@.last_asr_submit_idx is None,
            r@.last_asr_poll_ms == 0,
    {
        let ring = AudioRingBuffer::new(config.ring_capacity);
        let r = AudioSegmenter {
            config,
            frame_classifier: FrameClassifier::new(),
            boundary_fsm: BoundaryFSM::new(config),
            emitter: SegmentEmitter::new(config, ring),
            last_asr_poll_ms: 0,
            last_asr_submit_idx: None,
            outgoing: Vec::new(),
            next_turn_id: 1,
            current_turn_id: None,
            asr_requests: Vec::new(),
        };
        proof {
            assert(r@.outgoing =~= Seq::<OutgoingView>::empty());
            assert(r@.asr_requests =~= Seq::<(u64, Seq<i16>, usize, usize)>::empty());
        }
        r
    }

    /// Processes a 20 ms chunk at time `now_ms`; a chunk of another length is
    /// ignored. The detector labels the chunk; the rest is
    /// `push_classified_chunk`.
    pub fn push_chunk(&mut self, chunk: &[i16], now_ms: u64) -> (r: Option<SegmentedTurn>)
        requires
            old(self).wf(),
            old(self)@.emitter.ring.current_global() + FRAME_SAMPLES <= usize::MAX,
            old(self)@.fsm.next_seg_id < u64::MAX,
            old(self)@.next_turn_id < u64::MAX,
        ensures
            final(self).wf(),
            chunk@.len() != FRAME_SAMPLES ==> r is None && final(self)@ == old(self)@,
            chunk@.len() == FRAME_SAMPLES ==> exists|voiced: bool|
                Self::chunk_step(old(self)@, chunk@, voiced, now_ms, final(self)@, opt_seg_view(r)),
    {
        let start = self.emitter.ring().current_global_idx();
        match self.frame_classifier.classify_frame(chunk, start, now_ms) {
            Ok(meta) => self.push_classified_chunk(chunk, meta.voiced, now_ms),
            Err(_) => None,
        }
    }

    /// What one classified chunk does: `v` becomes `w` and `r` comes out.
    pub open spec fn chunk_step(
        v: SegmenterView,
        chunk: Seq<i16>,
        voiced: bool,
        now: u64,
        w: SegmenterView,
        r: Option<SegView>,
    ) -> bool {
        let start = v.emitter.ring.current_global();
        let ring = RingView { history: v.emitter.ring.history + chunk, ..v.emitter.ring };
        let frame = FrameMeta { timestamp_ms: now, start_idx: start as usize, voiced };
        let fs = boundary_step(v.fsm, frame, ring.current_global() as int);
        let out = frame_outgoing(
            v.current_turn_id,
            v.next_turn_id,
            fs.0.state,
            fs.1 is Some,
            le_bytes_of(chunk),
        );
        let due = (if now >= v.last_asr_poll_ms {
            now - v.last_asr_poll_ms
        } else {
            0
        }) >= v.config.asr_poll_ms;
        let poll = asr_poll(fs.0, ring, v.last_asr_submit_idx);
        let e0 = EmitterView { ring, ..v.emitter };
        &&& w.config == v.config
        &&& w.fsm == fs.0
        &&& w.outgoing == v.outgoing + out.0
        &&& w.current_turn_id == out.1
        &&& w.next_turn_id == out.2
        &&& if due {
            &&& w.last_asr_poll_ms == now
            &&& w.last_asr_submit_idx == poll.1
            &&& w.asr_requests == v.asr_requests + match poll.0 {
                Some(q) => seq![q],
                None => Seq::empty(),
            }
        } else {
            &&& w.last_asr_poll_ms == v.last_asr_poll_ms
            &&& w.last_asr_submit_idx == v.last_asr_submit_idx
            &&& w.asr_requests == v.asr_requests
        }
        &&& exists|e1: EmitterView| after_boundary(e0, fs.1, now, e1) && popped(e1, now, w.emitter, r)
    }

    /// Processes a 20 ms chunk whose voice label is `voiced`, at time `now_ms`.
    pub fn push_classified_chunk(&mut self, chunk: &[i16], voiced: bool, now_ms: u64) -> (r: Option<
        SegmentedTurn,
    >)
        requires
            old(self).wf(),
            chunk@.len() == FRAME_SAMPLES,
            old(self)@.emitter.ring.current_global() + FRAME_SAMPLES <= usize::MAX,
            old(self)@.fsm.next_seg_id < u64::MAX,
            old(self)@.next_turn_id < u64::MAX,
        ensures
            final(self).wf(),
            Self::chunk_step(old(self)@, chunk@, voiced, now_ms, final(self)@, opt_seg_view(r)),
    {
        let ghost v0 = self@;
        let start = self.emitter.push_samples(chunk);
        let frame = FrameMeta { timestamp_ms: now_ms, start_idx: start, voiced };
        let current = self.emitter.ring().current_global_idx();
        let closed = self.boundary_fsm.process_frame(&frame, current);
        let state = *self.boundary_fsm.get_state();
        let ghost e0 = self@.emitter;
        let ghost out0 = self@.outgoing;
        let recording = match state {
            BoundaryState::Recording { .. } => true,
            _ => false,
        };
        let open = match state {
            BoundaryState::Idle => false,
            _ => true,
        };
        if recording && self.current_turn_id.is_none() {
            self.outgoing.push(Outgoing::ActivityStart(self.next_turn_id));
            self.current_turn_id = Some(self.next_turn_id);
            self.next_turn_id = self.next_turn_id + 1;
        }
        let ghost out1 = outgoing_view(self.outgoing@);
        match self.current_turn_id {
            Some(t) => {
                if open {
                    let bytes = i16_slice_to_u8(chunk);
                    self.outgoing.push(Outgoing::AudioChunk(bytes, t));
                }
            },
            None => {},
        }
        let ghost out2 = outgoing_view(self.outgoing@);
        match closed {
            Some((id, event)) => {
                match self.current_turn_id {
                    Some(t) => {
                        self.outgoing.push(Outgoing::ActivityEnd(t));
                    },
                    None => {},
                }
                self.current_turn_id = None;
                self.emitter.process_boundary_event(event, id, now_ms);
            },
            None => {},
        }
        proof {
            let out = frame_outgoing(
                v0.current_turn_id,
                v0.next_turn_id,
                state,
                closed is Some,
                le_bytes_of(chunk@),
            );
            assert(outgoing_view(self.outgoing@) =~= v0.outgoing + out.0);
        }
        let ghost e1 = self@.emitter;
        let elapsed = if now_ms >= self.last_asr_poll_ms {
            now_ms - self.last_asr_poll_ms
        } else {
            0
        };
        if elapsed >= self.config.asr_poll_ms {
            self.poll_asr();
            self.last_asr_poll_ms = now_ms;
        }
        let r = self.emitter.pop_segment(now_ms);
        proof {
            let ring = RingView { history: v0.emitter.ring.history + chunk@, ..v0.emitter.ring };
            assert(e0 == EmitterView { ring, ..v0.emitter });
            assert(after_boundary(e0, boundary_step(v0.fsm, frame, ring.current_global() as int).1, now_ms, e1));
            assert(popped(e1, now_ms, self@.emitter, opt_seg_view(r)));
        }
        r
    }

    /// Requests a transcription of the open segment when enough new audio has
    /// come since the last request.
    fn poll_asr(&mut self)
        requires
            old(self).wf(),
        ensures
            final(self).wf(),
            ({
                let p = asr_poll(old(self)@.fsm, old(self)@.emitter.ring, old(self)@.last_asr_submit_idx);
                &&& final(self)@ == (SegmenterView {
                    last_asr_submit_idx: p.1,
                    asr_requests: old(self)@.asr_requests + match p.0 {
                        Some(q) => seq![q],
                        None => Seq::empty(),
                    },
                    ..old(self)@
                })
            }),
    {
        match self.boundary_fsm.get_current_segment_range() {
            Some(range) => {
                let seg_start = range.start;
                let current = self.emitter.ring().current_global_idx();
                let from = match self.last_asr_submit_idx {
                    Some(l) => if l < seg_start {
                        seg_start
                    } else {
                        l
                    },
                    None => seg_start,
                };
                let mut submitted = false;
                if current > from && current - from > ASR_MIN_NEW_SAMPLES {
                    match self.emitter.ring().get_range(std::ops::Range { start: seg_start, end: current }) {
                        Some(audio) => {
                            let ghost q = (self.boundary_fsm@.next_seg_id, audio@, seg_start, current);
                            let id = self.boundary_fsm.next_segment_id();
                            self.asr_requests.push(
                                AsrRequest {
                                    id,
                                    audio,
                                    global_range: std::ops::Range { start: seg_start, end: current },
                                },
                            );
                            proof {
                                assert(requests_view(self.asr_requests@) =~= requests_view(
                                    old(self).asr_requests@,
                                ) + seq![q]);
                            }
                            self.last_asr_submit_idx = Some(current);
                            submitted = true;
                        },
                        None => {},
                    }
                }
                if !submitted {
                    self.last_asr_submit_idx = Some(from);
                    proof {
                        assert(self@.asr_requests =~= old(self)@.asr_requests + Seq::empty());
                    }
                }
            },
            None => {
                self.last_asr_submit_idx = None;
                proof {
                    assert(self@.asr_requests =~= old(self)@.asr_requests + Seq::empty());
                }
            },
        }
    }

    /// Hands a transcription proposal to the boundary state machine.
    pub fn add_proposal(&mut self, p: AsrProposal)
        requires
            old(self).wf(),
        ensures
            final(self).wf(),
            final(self)@ == (SegmenterView {
                fsm: BoundaryView {
                    proposals: old(self)@.fsm.proposals.push((p.clause_end_idx, p.text@)),
                    ..old(self)@.fsm
                },
                ..old(self)@
            }),
    {
        self.boundary_fsm.add_proposal(p);
    }

    /// Gives segment `seg_id` its transcript if it is still pending without
    /// one, then emits what has become ready at time `now_ms`.
    pub fn add_transcript(&mut self, seg_id: u64, text: String, now_ms: u64)
        requires
            old(self).wf(),
        ensures
            final(self).wf(),
            final(self)@ == (SegmenterView { emitter: final(self)@.emitter, ..old(self)@ }),
            final(self)@.emitter.ring == old(self)@.emitter.ring,
            if old(self)@.emitter.pending.contains_key(seg_id)
                && old(self)@.emitter.pending[seg_id].text is None {
                let c = old(self)@.emitter.pending[seg_id];
                let d = drain(
                    old(self)@.emitter.pending.insert(
                        seg_id,
                        SegmentCommit {
                            id: c.id,
                            range: c.range,
                            reason: c.reason,
                            text: Some(text),
                            timestamp_ms: c.timestamp_ms,
                        },
                    ),
                    old(self)@.emitter.next_emit_id,
                    old(self)@.emitter.ring,
                    now_ms,
                    old(self)@.config.asr_timeout_ms,
                );
                &&& final(self)@.emitter.pending == d.0
                &&& final(self)@.emitter.next_emit_id == d.1
                &&& final(self)@.emitter.queue == old(self)@.emitter.queue + d.2
            } else {
                final(self)@.emitter == old(self)@.emitter
            },
    {
        self.emitter.add_transcript(seg_id, text, now_ms);
    }

    /// Hands out the activity messages produced so far, in order.
    pub fn drain_outgoing(&mut self) -> (r: Vec<Outgoing>)
        requires
            old(self).wf(),
        ensures
            final(self).wf(),
            outgoing_view(r@) == old(self)@.outgoing,
            final(self)@ == (SegmenterView { outgoing: Seq::empty(), ..old(self)@ }),
    {
        let mut r: Vec<Outgoing> = Vec::new();
        std::mem::swap(&mut r, &mut self.outgoing);
        proof {
            assert(outgoing_view(self.outgoing@) =~= Seq::<OutgoingView>::empty());
        }
        r
    }

    /// Hands out the transcription requests made so far, in order.
    pub fn drain_asr_requests(&mut self) -> (r: Vec<AsrRequest>)
        requires
            old(self).wf(),
        ensures
            final(self).wf(),
            requests_view(r@) == old(self)@.asr_requests,
            final(self)@ == (SegmenterView { asr_requests: Seq::empty(), ..old(self)@ }),
    {
        let mut r: Vec<AsrRequest> = Vec::new();
        std::mem::swap(&mut r, &mut self.asr_requests);
        proof {
            assert(requests_view(self.asr_requests@) =~= Seq::<(u64, Seq<i16>, usize, usize)>::empty());
        }
        r
    }

    /// Emits what is ready at time `now_ms` and hands out the next segment.
    pub fn force_close(&mut self, now_ms: u64) -> (r: Option<SegmentedTurn>)
        requires
            old(self).wf(),
        ensures
            final(self).wf(),
            popped(old(self)@.emitter, now_ms, final(self)@.emitter, opt_seg_view(r)),
            final(self)@ == (SegmenterView { emitter: final(self)@.emitter, ..old(self)@ }),
    {
        self.emitter.pop_segment(now_ms)
    }

    /// Whether the stream counters leave room for one more chunk: the sample
    /// index, the segment id and the turn id must not overflow.
    pub fn can_accept_chunk(&self) -> (r: bool)
        requires
            self.wf(),
        ensures
            r == (self@.emitter.ring.current_global() + FRAME_SAMPLES <= usize::MAX
                && self@.fsm.next_seg_id < u64::MAX && self@.next_turn_id < u64::MAX),
    {
        let cur = self.emitter.ring().current_global_idx();
        cur <= usize::MAX - FRAME_SAMPLES && self.boundary_fsm.next_segment_id() < u64::MAX
            && self.next_turn_id < u64::MAX
    }

    /// The boundary state machine's current state.
    pub fn boundary_state(&self) -> (r: BoundaryState)
        ensures
            r == self@.fsm.state,
    {
        *self.boundary_fsm.get_state()
    }
}

} // verus!
