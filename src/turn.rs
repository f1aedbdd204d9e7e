//! The turn state machine: frames user turns for a service that accepts one
//! active turn at a time.
use crate::wire::{
    lemma_stream_push, msgs_view, stream_ok, stream_state, ActivityMode, WireMessage,
    WireMsg,
};
use crate::latency::{latency_stats, stats_of, LatencyStats};
use std::collections::VecDeque;
use vstd::prelude::*;

verus! {

/// Number of latencies kept for reporting.
pub const MAX_LATENCIES: usize = 100;

/// Inputs of the turn state machine.
#[derive(Debug)]
pub enum Event {
    /// Speech detected.
    SpeechStart,
    /// A chunk of PCM bytes of the current speech.
    AudioChunk(Vec<u8>),
    /// Speech ended.
    SpeechEnd,
    /// A JPEG frame with a content hash.
    Frame { jpeg: Vec<u8>, hash: u64 },
    /// The service finished answering a turn.
    ResponseReceived,
}

/// An input seen mathematically.
pub enum EventView {
    SpeechStart,
    AudioChunk(Seq<u8>),
    SpeechEnd,
    Frame { jpeg: Seq<u8>, hash: u64 },
    ResponseReceived,
}

impl View for Event {
    type V = EventView;

    open spec fn view(&self) -> EventView {
        match self {
            Event::SpeechStart => EventView::SpeechStart,
            Event::AudioChunk(b) => EventView::AudioChunk(b@),
            Event::SpeechEnd => EventView::SpeechEnd,
            Event::Frame { jpeg, hash } => EventView::Frame { jpeg: jpeg@, hash: *hash },
            Event::ResponseReceived => EventView::ResponseReceived,
        }
    }
}

/// States of the turn state machine.
#[derive(Clone, Copy, Debug, PartialEq, Eq, Structural)]
pub enum TurnState {
    /// No turn in flight.
    Idle,
    /// Collecting unique frames before a video turn.
    FrameBatch,
    /// `activityStart` sent; streaming audio, frames go along.
    AudioTurn,
    /// Speech ended; waiting for one fresh frame before closing the turn.
    WaitingForForcedFrame,
}

/// The state machine seen mathematically.
pub struct TurnView {
    pub state: TurnState,
    pub frames_per_turn: usize,
    pub force_frame_timeout_ms: u64,
    pub last_frame_hash: u64,
    pub frame_batch: Seq<Seq<u8>>,
    pub last_frame: Option<Seq<u8>>,
    pub wait_start: Option<u64>,
    pub video_sent_in_audio_turn: bool,
    pub last_turn_was_video: bool,
    /// Dispatched turns that await an answer: (video turn, time of `activityEnd`).
    pub pending_turns: Seq<(bool, u64)>,
    pub recent_latencies: Seq<u64>,
    pub need_activity_reset: bool,
    pub capture_requests: u64,
    /// Messages not yet drained.
    pub outbound: Seq<WireMsg>,
    /// Every message ever emitted, in order.
    pub sent: Seq<WireMsg>,
}

/// `v` after emitting `msgs`.
pub open spec fn emit(v: TurnView, msgs: Seq<WireMsg>) -> TurnView {
    TurnView { outbound: v.outbound + msgs, sent: v.sent + msgs, ..v }
}

/// Whether a dispatched turn still awaiting an answer was a video turn.
pub open spec fn has_pending_video(v: TurnView) -> bool {
    exists|i: int| 0 <= i < v.pending_turns.len() && (#[trigger] v.pending_turns[i]).0
}

/// The messages of a video turn carrying `frames`.
pub open spec fn video_turn_msgs(frames: Seq<Seq<u8>>) -> Seq<WireMsg> {
    seq![WireMsg::ActivityStart] + frames.map_values(|f: Seq<u8>| WireMsg::Video(f)) + seq![
        WireMsg::ActivityEnd,
    ]
}

/// Dispatches the collected batch as one video turn.
pub open spec fn flush_batch(v: TurnView, now: u64) -> TurnView {
    let w = emit(v, video_turn_msgs(v.frame_batch));
    TurnView {
        frame_batch: Seq::empty(),
        last_turn_was_video: true,
        pending_turns: v.pending_turns.push((true, now)),
        ..w
    }
}

/// Opens an audio turn; when `from_idle`, the mode is switched first where a
/// video turn is still being answered.
pub open spec fn begin_audio(v: TurnView, from_idle: bool) -> TurnView {
    let w = if from_idle && has_pending_video(v) {
        TurnView {
            need_activity_reset: true,
            ..emit(v, seq![WireMsg::Setup(ActivityMode::StartOfActivityInterrupts)])
        }
    } else {
        v
    };
    TurnView {
        state: TurnState::AudioTurn,
        last_turn_was_video: false,
        video_sent_in_audio_turn: false,
        ..emit(w, seq![WireMsg::ActivityStart])
    }
}

/// Closes the audio turn: the final frame if any, the mode restored if it was
/// switched, then `activityEnd`.
pub open spec fn close_audio(v: TurnView, frame: Option<Seq<u8>>, now: u64) -> TurnView {
    let w = match frame {
        Some(f) => emit(v, seq![WireMsg::Video(f)]),
        None => v,
    };
    let x = if w.need_activity_reset {
        TurnView {
            need_activity_reset: false,
            ..emit(w, seq![WireMsg::Setup(ActivityMode::NoInterruption)])
        }
    } else {
        w
    };
    TurnView {
        last_turn_was_video: false,
        pending_turns: x.pending_turns.push((false, now)),
        ..emit(x, seq![WireMsg::ActivityEnd])
    }
}

/// Records the answer to the oldest dispatched turn.
pub open spec fn record_response(v: TurnView, now: u64) -> TurnView {
    if v.pending_turns.len() == 0 {
        v
    } else {
        let end = v.pending_turns[0].1;
        let latency = if now >= end {
            (now - end) as u64
        } else {
            0u64
        };
        let l = v.recent_latencies.push(latency);
        TurnView {
            pending_turns: v.pending_turns.drop_first(),
            recent_latencies: if l.len() > MAX_LATENCIES {
                l.drop_first()
            } else {
                l
            },
            ..v
        }
    }
}

/// The state machine after one input at time `now`.
pub open spec fn turn_step(v: TurnView, e: EventView, now: u64) -> TurnView {
    match e {
        EventView::ResponseReceived => record_response(v, now),
        EventView::Frame { jpeg, hash } => {
            match v.state {
                TurnState::Idle => {
                    if hash == v.last_frame_hash {
                        TurnView { last_frame: Some(jpeg), ..v }
                    } else if v.frames_per_turn > 1 {
                        TurnView {
                            last_frame: Some(jpeg),
                            frame_batch: v.frame_batch.push(jpeg),
                            last_frame_hash: hash,
                            state: TurnState::FrameBatch,
                            ..v
                        }
                    } else {
                        let w = emit(v, video_turn_msgs(seq![jpeg]));
                        TurnView {
                            last_frame: Some(jpeg),
                            last_frame_hash: hash,
                            last_turn_was_video: true,
                            pending_turns: v.pending_turns.push((true, now)),
                            ..w
                        }
                    }
                },
                TurnState::FrameBatch => {
                    if hash == v.last_frame_hash {
                        TurnView { last_frame: Some(jpeg), ..v }
                    } else {
                        let w = TurnView {
                            last_frame: Some(jpeg),
                            frame_batch: v.frame_batch.push(jpeg),
                            last_frame_hash: hash,
                            ..v
                        };
                        if w.frame_batch.len() >= v.frames_per_turn {
                            TurnView { state: TurnState::Idle, ..flush_batch(w, now) }
                        } else {
                            w
                        }
                    }
                },
                TurnState::AudioTurn => {
                    if hash == v.last_frame_hash {
                        TurnView { last_frame: Some(jpeg), ..v }
                    } else {
                        TurnView {
                            last_frame: Some(jpeg),
                            last_frame_hash: hash,
                            video_sent_in_audio_turn: true,
                            ..emit(v, seq![WireMsg::Video(jpeg)])
                        }
                    }
                },
                TurnState::WaitingForForcedFrame => {
                    let w = TurnView { last_frame: Some(jpeg), last_frame_hash: hash, ..v };
                    TurnView {
                        state: TurnState::Idle,
                        wait_start: None,
                        ..close_audio(w, Some(jpeg), now)
                    }
                },
            }
        },
        EventView::SpeechStart => {
            match v.state {
                TurnState::Idle => begin_audio(v, true),
                TurnState::FrameBatch => {
                    let w = if v.frame_batch.len() > 0 {
                        flush_batch(v, now)
                    } else {
                        v
                    };
                    begin_audio(w, true)
                },
                TurnState::WaitingForForcedFrame => begin_audio(
                    close_audio(v, v.last_frame, now),
                    false,
                ),
                TurnState::AudioTurn => v,
            }
        },
        EventView::AudioChunk(pcm) => {
            if v.state == TurnState::AudioTurn {
                emit(v, seq![WireMsg::Audio(pcm)])
            } else {
                v
            }
        },
        EventView::SpeechEnd => {
            if v.state == TurnState::AudioTurn {
                TurnView {
                    capture_requests: if v.capture_requests < u64::MAX {
                        (v.capture_requests + 1) as u64
                    } else {
                        v.capture_requests
                    },
                    wait_start: Some(now),
                    state: TurnState::WaitingForForcedFrame,
                    ..v
                }
            } else {
                v
            }
        },
    }
}

/// The forced-frame wait has run out at time `now`.
pub open spec fn wait_expired(v: TurnView, now: u64) -> bool {
    v.state == TurnState::WaitingForForcedFrame && match v.wait_start {
        Some(start) => now >= start && now - start > v.force_frame_timeout_ms,
        None => false,
    }
}

/// The state machine after a timeout tick at time `now`.
pub open spec fn timeout_step(v: TurnView, now: u64) -> TurnView {
    if wait_expired(v, now) {
        TurnView { state: TurnState::Idle, wait_start: None, ..close_audio(v, v.last_frame, now) }
    } else {
        v
    }
}

/// A turn is open on the wire in these states.
pub open spec fn in_audio_turn(s: TurnState) -> bool {
    s == TurnState::AudioTurn || s == TurnState::WaitingForForcedFrame
}

/// Consumes speech segments and unique video frames and produces the
/// activity-protocol messages, one turn at a time.
pub struct SimpleTurnFsm {
    state: TurnState,
    frames_per_turn: usize,
    force_frame_timeout_ms: u64,
    last_frame_hash: u64,
    frame_batch: Vec<Vec<u8>>,
    video_sent_in_audio_turn: bool,
    last_frame_data: Option<Vec<u8>>,
    force_frame_wait_start: Option<u64>,
    outbound: Vec<WireMessage>,
    capture_requests: u64,
    pending_turns: VecDeque<(bool, u64)>,
    recent_latencies: VecDeque<u64>,
    last_turn_was_video: bool,
    need_activity_reset: bool,
    sent: Ghost<Seq<WireMsg>>,
}

pub open spec fn opt_view(o: Option<Vec<u8>>) -> Option<Seq<u8>> {
    match o {
        Some(b) => Some(b@),
        None => None,
    }
}

impl View for SimpleTurnFsm {
    type V = TurnView;

    closed spec fn view(&self) -> TurnView {
        TurnView {
            state: self.state,
            frames_per_turn: self.frames_per_turn,
            force_frame_timeout_ms: self.force_frame_timeout_ms,
            last_frame_hash: self.last_frame_hash,
            frame_batch: self.frame_batch@.map_values(|f: Vec<u8>| f@),
            last_frame: opt_view(self.last_frame_data),
            wait_start: self.force_frame_wait_start,
            video_sent_in_audio_turn: self.video_sent_in_audio_turn,
            last_turn_was_video: self.last_turn_was_video,
            pending_turns: self.pending_turns@,
            recent_latencies: self.recent_latencies@,
            need_activity_reset: self.need_activity_reset,
            capture_requests: self.capture_requests,
            outbound: msgs_view(self.outbound@),
            sent: self.sent@,
        }
    }
}

/// The invariant of the state machine's view: the wire stream so far is well
/// formed, a turn is open exactly in the audio states, the interrupting mode is
/// in force only inside an audio turn, and a forced-frame wait has a start.
pub open spec fn turn_inv(v: TurnView) -> bool {
    &&& stream_ok(v.sent)
    &&& stream_state(v.sent) == (in_audio_turn(v.state), v.need_activity_reset)
    &&& (v.need_activity_reset ==> in_audio_turn(v.state))
    &&& (v.state == TurnState::WaitingForForcedFrame ==> v.wait_start is Some)
    &&& v.recent_latencies.len() <= MAX_LATENCIES
}

impl SimpleTurnFsm {
    pub closed spec fn wf(&self) -> bool {
        turn_inv(self@)
    }

    /// A machine in `Idle` that batches `frames_per_turn` frames into a video
    /// turn and waits at most `force_frame_timeout_ms` for a forced frame.
    pub fn new(frames_per_turn: usize, force_frame_timeout_ms: u64) -> (r: Self)
        ensures
            r.wf(),
            r@.state == TurnState::Idle,
            r@.frames_per_turn == frames_per_turn,
            r@.force_frame_timeout_ms == force_frame_timeout_ms,
            r@.last_frame_hash == 0,
            r@.frame_batch.len() == 0,
            r@.last_frame is None,
            r@.wait_start is None,
            !r@.video_sent_in_audio_turn,
            !r@.last_turn_was_video,
            r@.pending_turns.len() == 0,
            r@.recent_latencies.len() == 0,
            !r@.need_activity_reset,
            r@.capture_requests == 0,
            r@.outbound.len() == 0,
            r@.sent.len() == 0,
    {
        let r = SimpleTurnFsm {
            state: TurnState::Idle,
            frames_per_turn,
            force_frame_timeout_ms,
            last_frame_hash: 0,
            frame_batch: Vec::new(),
            video_sent_in_audio_turn: false,
            last_frame_data: None,
            force_frame_wait_start: None,
            outbound: Vec::new(),
            capture_requests: 0,
            pending_turns: VecDeque::new(),
            recent_latencies: VecDeque::new(),
            last_turn_was_video: false,
            need_activity_reset: false,
            sent: Ghost(Seq::empty()),
        };
        proof {
            assert(r@.frame_batch =~= Seq::<Seq<u8>>::empty());
            assert(r@.outbound =~= Seq::<WireMsg>::empty());
        }
        r
    }

    /// Appends one message to the outbound queue and the history.
    fn push_msg(&mut self, m: WireMessage)
        ensures
            final(self)@ == emit(old(self)@, seq![m@]),
    {
        let ghost m_view = m@;
        self.outbound.push(m);
        proof {
            self.sent@ = self.sent@ + seq![m_view];
            assert(msgs_view(self.outbound@) =~= msgs_view(old(self).outbound@) + seq![m_view]);
        }
    }

    /// Emits `activityStart`, one `video` per collected frame, `activityEnd`,
    /// and records a pending video turn.
    fn flush_frame_batch(&mut self, now_ms: u64)
        requires
            turn_inv(old(self)@),
            !in_audio_turn(old(self)@.state),
            !old(self)@.need_activity_reset,
        ensures
            final(self)@ == flush_batch(old(self)@, now_ms),
            turn_inv(final(self)@),
    {
        let ghost v0 = self@;
        proof {
            lemma_stream_push(self@.sent, WireMsg::ActivityStart);
        }
        self.push_msg(WireMessage::ActivityStart);
        let n = self.frame_batch.len();
        let mut i: usize = 0;
        while i < n
            invariant
                0 <= i <= n,
                n == self.frame_batch@.len(),
                self@.frame_batch == v0.frame_batch,
                self@ == emit(
                    v0,
                    seq![WireMsg::ActivityStart] + v0.frame_batch.subrange(0, i as int).map_values(
                        |f: Seq<u8>| WireMsg::Video(f),
                    ),
                ),
                stream_ok(self@.sent),
                stream_state(self@.sent) == (true, false),
            decreases n - i,
        {
            let f = self.frame_batch[i].clone();
            let ghost fv = f@;
            proof {
                assert(fv == v0.frame_batch[i as int]);
                lemma_stream_push(self@.sent, WireMsg::Video(fv));
            }
            self.push_msg(WireMessage::Video(f));
            proof {
                let pre = v0.frame_batch.subrange(0, i as int).map_values(
                    |f: Seq<u8>| WireMsg::Video(f),
                );
                let post = v0.frame_batch.subrange(0, i as int + 1).map_values(
                    |f: Seq<u8>| WireMsg::Video(f),
                );
                assert(post =~= pre.push(WireMsg::Video(fv)));
                assert(seq![WireMsg::ActivityStart] + post =~= seq![WireMsg::ActivityStart] + pre
                    + seq![WireMsg::Video(fv)]);
                assert(self@.outbound =~= v0.outbound + (seq![WireMsg::ActivityStart] + post));
                assert(self@.sent =~= v0.sent + (seq![WireMsg::ActivityStart] + post));
            }
            i = i + 1;
        }
        proof {
            lemma_stream_push(self@.sent, WireMsg::ActivityEnd);
            assert(v0.frame_batch.subrange(0, n as int) == v0.frame_batch);
        }
        self.push_msg(WireMessage::ActivityEnd);
        self.frame_batch = Vec::new();
        self.last_turn_was_video = true;
        self.pending_turns.push_back((true, now_ms));
        proof {
            let msgs = video_turn_msgs(v0.frame_batch);
            assert(self@.outbound =~= v0.outbound + msgs);
            assert(self@.sent =~= v0.sent + msgs);
            assert(self@.frame_batch =~= Seq::<Seq<u8>>::empty());
            assert(self@ == flush_batch(v0, now_ms));
        }
    }

    fn any_pending_video(&self) -> (r: bool)
        ensures
            r == has_pending_video(self@),
    {
        let n = self.pending_turns.len();
        let mut i: usize = 0;
        while i < n
            invariant
                0 <= i <= n,
                n == self@.pending_turns.len(),
                forall|j: int| 0 <= j < i ==> !(#[trigger] self@.pending_turns[j]).0,
            decreases n - i,
        {
            if self.pending_turns[i].0 {
                return true;
            }
            i = i + 1;
        }
        false
    }

    /// Opens an audio turn, switching the mode first where a video turn is
    /// still being answered.
    fn start_audio_turn(&mut self, from_idle: bool)
        requires
            turn_inv(old(self)@),
            !in_audio_turn(old(self)@.state),
            !old(self)@.need_activity_reset,
        ensures
            final(self)@ == begin_audio(old(self)@, from_idle),
            turn_inv(final(self)@),
    {
        let ghost v0 = self@;
        if from_idle && self.any_pending_video() {
            proof {
                lemma_stream_push(
                    self@.sent,
                    WireMsg::Setup(ActivityMode::StartOfActivityInterrupts),
                );
            }
            self.push_msg(WireMessage::Setup(ActivityMode::StartOfActivityInterrupts));
            self.need_activity_reset = true;
        }
        proof {
            lemma_stream_push(self@.sent, WireMsg::ActivityStart);
        }
        self.push_msg(WireMessage::ActivityStart);
        self.last_turn_was_video = false;
        self.video_sent_in_audio_turn = false;
        self.state = TurnState::AudioTurn;
    }

    /// Closes the current audio turn.
    fn end_audio_turn(&mut self, frame: Option<Vec<u8>>, now_ms: u64)
        requires
            turn_inv(old(self)@),
            in_audio_turn(old(self)@.state),
        ensures
            final(self)@ == close_audio(old(self)@, opt_view(frame), now_ms),
            stream_ok(final(self)@.sent),
            stream_state(final(self)@.sent) == (false, false),
            !final(self)@.need_activity_reset,
            final(self)@.recent_latencies == old(self)@.recent_latencies,
    {
        match frame {
            Some(f) => {
                proof {
                    lemma_stream_push(self@.sent, WireMsg::Video(f@));
                }
                self.push_msg(WireMessage::Video(f));
            },
            None => {},
        }
        if self.need_activity_reset {
            proof {
                lemma_stream_push(self@.sent, WireMsg::Setup(ActivityMode::NoInterruption));
            }
            self.push_msg(WireMessage::Setup(ActivityMode::NoInterruption));
            self.need_activity_reset = false;
        }
        proof {
            lemma_stream_push(self@.sent, WireMsg::ActivityEnd);
        }
        self.push_msg(WireMessage::ActivityEnd);
        self.last_turn_was_video = false;
        self.pending_turns.push_back((false, now_ms));
    }

    fn copy_last_frame(&self) -> (r: Option<Vec<u8>>)
        ensures
            opt_view(r) == self@.last_frame,
    {
        match &self.last_frame_data {
            Some(f) => Some(f.clone()),
            None => None,
        }
    }

    /// Applies one input at time `now_ms`; the messages it produces are
    /// appended to the outbound queue.
    pub fn on_event(&mut self, event: Event, now_ms: u64)
        requires
            old(self).wf(),
        ensures
            final(self).wf(),
            final(self)@ == turn_step(old(self)@, event@, now_ms),
    {
        let ghost v0 = self@;
        let ghost ev = event@;
        match event {
            Event::ResponseReceived => {
                self.record_response(now_ms);
            },
            Event::Frame { jpeg, hash } => {
                match self.state {
                    TurnState::Idle => {
                        if hash != self.last_frame_hash {
                            if self.frames_per_turn > 1 {
                                self.last_frame_data = Some(jpeg.clone());
                                self.frame_batch.push(jpeg);
                                self.last_frame_hash = hash;
                                self.state = TurnState::FrameBatch;
                                proof {
                                    assert(self@.frame_batch =~= v0.frame_batch.push(ev->jpeg));
                                }
                            } else {
                                self.last_frame_data = Some(jpeg.clone());
                                proof {
                                    lemma_stream_push(self@.sent, WireMsg::ActivityStart);
                                }
                                self.push_msg(WireMessage::ActivityStart);
                                proof {
                                    lemma_stream_push(self@.sent, WireMsg::Video(ev->jpeg));
                                }
                                self.push_msg(WireMessage::Video(jpeg));
                                proof {
                                    lemma_stream_push(self@.sent, WireMsg::ActivityEnd);
                                }
                                self.push_msg(WireMessage::ActivityEnd);
                                self.last_frame_hash = hash;
                                self.last_turn_was_video = true;
                                self.pending_turns.push_back((true, now_ms));
                                proof {
                                    let msgs = video_turn_msgs(seq![ev->jpeg]);
                                    assert(msgs =~= seq![
                                        WireMsg::ActivityStart,
                                        WireMsg::Video(ev->jpeg),
                                        WireMsg::ActivityEnd,
                                    ]);
                                    assert(self@.outbound =~= v0.outbound + msgs);
                                    assert(self@.sent =~= v0.sent + msgs);
                                }
                            }
                        } else {
                            self.last_frame_data = Some(jpeg);
                        }
                    },
                    TurnState::FrameBatch => {
                        if hash != self.last_frame_hash {
                            self.last_frame_data = Some(jpeg.clone());
                            self.frame_batch.push(jpeg);
                            self.last_frame_hash = hash;
                            proof {
                                assert(self@.frame_batch =~= v0.frame_batch.push(ev->jpeg));
                            }
                            if self.frame_batch.len() >= self.frames_per_turn {
                                self.flush_frame_batch(now_ms);
                                self.state = TurnState::Idle;
                            }
                        } else {
                            self.last_frame_data = Some(jpeg);
                        }
                    },
                    TurnState::AudioTurn => {
                        if hash != self.last_frame_hash {
                            self.last_frame_data = Some(jpeg.clone());
                            proof {
                                lemma_stream_push(self@.sent, WireMsg::Video(ev->jpeg));
                            }
                            self.push_msg(WireMessage::Video(jpeg));
                            self.last_frame_hash = hash;
                            self.video_sent_in_audio_turn = true;
                        } else {
                            self.last_frame_data = Some(jpeg);
                        }
                    },
                    TurnState::WaitingForForcedFrame => {
                        self.last_frame_data = Some(jpeg.clone());
                        self.last_frame_hash = hash;
                        self.end_audio_turn(Some(jpeg), now_ms);
                        self.state = TurnState::Idle;
                        self.force_frame_wait_start = None;
                    },
                }
            },
            Event::SpeechStart => {
                match self.state {
                    TurnState::Idle => {
                        self.start_audio_turn(true);
                    },
                    TurnState::FrameBatch => {
                        if self.frame_batch.len() > 0 {
                            self.flush_frame_batch(now_ms);
                        }
                        self.start_audio_turn(true);
                    },
                    TurnState::WaitingForForcedFrame => {
                        let cached = self.copy_last_frame();
                        self.end_audio_turn(cached, now_ms);
                        self.state = TurnState::Idle;
                        self.start_audio_turn(false);
                    },
                    TurnState::AudioTurn => {},
                }
            },
            Event::AudioChunk(pcm) => {
                if self.state == TurnState::AudioTurn {
                    proof {
                        lemma_stream_push(self@.sent, WireMsg::Audio(ev->AudioChunk_0));
                    }
                    self.push_msg(WireMessage::Audio(pcm));
                }
            },
            Event::SpeechEnd => {
                if self.state == TurnState::AudioTurn {
                    if self.capture_requests < u64::MAX {
                        self.capture_requests = self.capture_requests + 1;
                    }
                    self.force_frame_wait_start = Some(now_ms);
                    self.state = TurnState::WaitingForForcedFrame;
                }
            },
        }
    }

    fn record_response(&mut self, now_ms: u64)
        requires
            turn_inv(old(self)@),
        ensures
            final(self)@ == record_response(old(self)@, now_ms),
            turn_inv(final(self)@),
    {
        match self.pending_turns.pop_front() {
            Some(p) => {
                let end = p.1;
                let latency = if now_ms >= end {
                    now_ms - end
                } else {
                    0
                };
                self.recent_latencies.push_back(latency);
                if self.recent_latencies.len() > MAX_LATENCIES {
                    self.recent_latencies.pop_front();
                }
            },
            None => {},
        }
    }

    /// Ends a forced-frame wait that has lasted longer than the timeout, with
    /// the last cached frame if there is one.
    pub fn check_force_frame_timeout(&mut self, now_ms: u64)
        requires
            old(self).wf(),
        ensures
            final(self).wf(),
            final(self)@ == timeout_step(old(self)@, now_ms),
    {
        if self.state == TurnState::WaitingForForcedFrame {
            match self.force_frame_wait_start {
                Some(start) => {
                    if now_ms >= start && now_ms - start > self.force_frame_timeout_ms {
                        let cached = self.copy_last_frame();
                        self.end_audio_turn(cached, now_ms);
                        self.state = TurnState::Idle;
                        self.force_frame_wait_start = None;
                    }
                },
                None => {},
            }
        }
    }

    /// Hands out the messages produced so far, in order.
    pub fn drain_messages(&mut self) -> (r: Vec<WireMessage>)
        requires
            old(self).wf(),
        ensures
            final(self).wf(),
            msgs_view(r@) == old(self)@.outbound,
            final(self)@ == (TurnView { outbound: Seq::empty(), ..old(self)@ }),
    {
        let mut r: Vec<WireMessage> = Vec::new();
        std::mem::swap(&mut r, &mut self.outbound);
        proof {
            assert(msgs_view(self.outbound@) =~= Seq::<WireMsg>::empty());
        }
        r
    }

    /// Hands out the number of forced-capture requests made since the last call.
    pub fn drain_capture_requests(&mut self) -> (r: u64)
        requires
            old(self).wf(),
        ensures
            final(self).wf(),
            r == old(self)@.capture_requests,
            final(self)@ == (TurnView { capture_requests: 0, ..old(self)@ }),
    {
        let r = self.capture_requests;
        self.capture_requests = 0;
        r
    }

    /// Current state.
    pub fn state(&self) -> (r: TurnState)
        ensures
            r == self@.state,
    {
        self.state
    }

    /// Statistics of the latencies of recent answers, if any.
    pub fn latency_report(&self) -> (r: Option<LatencyStats>)
        requires
            self.wf(),
        ensures
            self@.recent_latencies.len() == 0 ==> r is None,
            self@.recent_latencies.len() > 0 ==> r == Some(stats_of(self@.recent_latencies)),
    {
        latency_stats(&self.recent_latencies)
    }

    /// Number of dispatched turns that await an answer.
    pub fn pending_turns_count(&self) -> (r: usize)
        ensures
            r == self@.pending_turns.len(),
    {
        self.pending_turns.len()
    }
}

/// Every wire stream the machine produces is well formed: `activityStart` and
/// `activityEnd` alternate so that no two turns interleave, every `audio` and
/// `video` message lies inside a turn, and setup messages follow the mode rules
/// of `may_follow`.
pub proof fn lemma_wire_stream_well_formed(fsm: &SimpleTurnFsm)
    requires
        fsm.wf(),
    ensures
        stream_ok(fsm@.sent),
        stream_state(fsm@.sent).0 == in_audio_turn(fsm@.state),
{
}

/// Speech that begins while a video turn still awaits its answer emits exactly
/// one setup message switching to the interrupting mode, right before the new
/// turn's `activityStart`, and owes the restoring one.
pub proof fn lemma_speech_preempts_video(v: TurnView, now: u64)
    requires
        turn_inv(v),
        v.state == TurnState::Idle,
        has_pending_video(v),
    ensures
        turn_step(v, EventView::SpeechStart, now).outbound == v.outbound + seq![
            WireMsg::Setup(ActivityMode::StartOfActivityInterrupts),
            WireMsg::ActivityStart,
        ],
        turn_step(v, EventView::SpeechStart, now).need_activity_reset,
        turn_step(v, EventView::SpeechStart, now).state == TurnState::AudioTurn,
{
    let w = emit(v, seq![WireMsg::Setup(ActivityMode::StartOfActivityInterrupts)]);
    assert(w.outbound + seq![WireMsg::ActivityStart] =~= v.outbound + seq![
        WireMsg::Setup(ActivityMode::StartOfActivityInterrupts),
        WireMsg::ActivityStart,
    ]);
}

/// An audio turn that switched the mode is closed by exactly one setup
/// message restoring the default mode, right before its `activityEnd`, whether
/// it closes on a frame, on the timeout, or on new speech.
pub proof fn lemma_mode_restored_before_end(v: TurnView, frame: Option<Seq<u8>>, now: u64)
    requires
        turn_inv(v),
        v.need_activity_reset,
    ensures
        close_audio(v, frame, now).outbound == v.outbound + match frame {
            Some(f) => seq![WireMsg::Video(f)],
            None => Seq::<WireMsg>::empty(),
        } + seq![WireMsg::Setup(ActivityMode::NoInterruption), WireMsg::ActivityEnd],
        !close_audio(v, frame, now).need_activity_reset,
{
    let fm = match frame {
        Some(f) => seq![WireMsg::Video(f)],
        None => Seq::<WireMsg>::empty(),
    };
    assert(close_audio(v, frame, now).outbound =~= v.outbound + fm + seq![
        WireMsg::Setup(ActivityMode::NoInterruption),
        WireMsg::ActivityEnd,
    ]);
}

/// After a forced-capture request the machine leaves the waiting state by the
/// first timeout tick later than `force_frame_timeout_ms` after the request,
/// and at once if a frame arrives first.
pub proof fn lemma_forced_wait_bounded(v: TurnView, jpeg: Seq<u8>, hash: u64, now: u64)
    requires
        turn_inv(v),
        v.state == TurnState::WaitingForForcedFrame,
    ensures
        v.wait_start is Some,
        now >= v.wait_start->0 && now - v.wait_start->0 > v.force_frame_timeout_ms ==> timeout_step(
            v,
            now,
        ).state == TurnState::Idle,
        turn_step(v, EventView::Frame { jpeg, hash }, now).state == TurnState::Idle,
{
}

} // verus!
