//! The broker: a turn dispatcher that sends completed speech turns with
//! their recent frames, and video-only turns when the screen changes while
//! the user is silent.
use crate::latency::{TrackerView, TurnTracker};
use crate::wire::{WireMessage, WireMsg};
use vstd::prelude::*;

verus! {

/// Quiet time after speech before a video-only turn, in ms.
pub const VIDEO_GRACE_MS: u64 = 1000;

/// New frames needed for a video-only turn.
pub const MIN_NEW_FRAMES: usize = 2;

/// Frames sent with one turn at most.
pub const MAX_FRAMES_PER_TURN: usize = 5;

/// Recent frames kept.
pub const MAX_RECENT_FRAMES: usize = 10;

/// Age limit of the frames sent with a speech turn, in ms.
pub const SPEECH_FRAME_WINDOW_MS: u64 = 1000;

/// Inputs from the capture side.
#[derive(Clone, Debug)]
pub enum InEvent {
    AudioChunk(Vec<i16>),
    UniqueFrame { jpeg: Vec<u8>, hash: u64 },
}

/// A recent frame.
#[derive(Clone, Debug)]
pub struct FrameId {
    pub jpeg: Vec<u8>,
    pub hash: u64,
    pub timestamp_ms: u64,
}

/// Inbound events of the service that the broker reacts to.
#[derive(Clone, Debug)]
pub enum WsIn {
    Text { content: String, is_final: bool },
    GenerationComplete,
    ToolCall { name: String },
    Error(String),
}

/// Turns handed to the broker by the speech side.
#[derive(Clone, Debug)]
pub enum TurnInput {
    /// A whole speech turn.
    SpeechTurn { pcm: Vec<u8>, t_start_ms: u64, draft_text: Option<String> },
    /// Frames for a video turn.
    VideoTurn { frames: Vec<FrameId>, t_start_ms: u64 },
    /// A piece of streamed speech, possibly opening or closing the turn.
    StreamingAudio { bytes: Vec<u8>, is_start: bool, is_end: bool },
}

/// Inputs of the broker.
#[derive(Clone, Debug)]
pub enum Event {
    Input(InEvent),
    Ws(WsIn),
}

/// States of the broker.
#[derive(Clone, Copy, Debug, PartialEq, Eq, Structural)]
pub enum State {
    Idle,
    CollectingSpeech { start_ms: u64, turn_id: u64 },
    CollectingVideoOnly { start_ms: u64, turn_id: u64 },
    StreamingSpeech { start_ms: u64, turn_id: u64 },
}

/// The broker seen mathematically.
pub struct BrokerView {
    pub state: State,
    /// Recent frames: (JPEG, hash, arrival time).
    pub frames: Seq<(Seq<u8>, u64, u64)>,
    pub last_audio_ms: u64,
    pub frames_sent_in_turn: usize,
    pub next_turn_id: u64,
    pub tracker: TrackerView,
}

pub open spec fn frames_view(s: Seq<FrameId>) -> Seq<(Seq<u8>, u64, u64)> {
    s.map_values(|f: FrameId| (f.jpeg@, f.hash, f.timestamp_ms))
}

pub open spec fn video_msgs(frames: Seq<(Seq<u8>, u64, u64)>) -> Seq<WireMsg> {
    frames.map_values(|f: (Seq<u8>, u64, u64)| WireMsg::Video(f.0))
}

pub open spec fn sat_sub(a: int, b: int) -> int {
    if a >= b {
        a - b
    } else {
        0
    }
}

/// The broker after dispatching turn `next_turn_id` at time `now`.
pub open spec fn track_new_turn(v: BrokerView, now: u64) -> BrokerView {
    BrokerView {
        next_turn_id: (v.next_turn_id + 1) as u64,
        tracker: TrackerView {
            pending: v.tracker.pending.push((v.next_turn_id, now)),
            ..v.tracker
        },
        ..v
    }
}

/// A video-only turn with the frames that came since the last turn, at most
/// five, the newest ones.
pub open spec fn video_turn(v: BrokerView, now: u64) -> (BrokerView, Seq<WireMsg>) {
    let w = track_new_turn(v, now);
    let len = v.frames.len();
    let fresh = sat_sub(len as int, v.frames_sent_in_turn as int);
    let count = if fresh < MAX_FRAMES_PER_TURN {
        fresh
    } else {
        MAX_FRAMES_PER_TURN as int
    };
    (
        BrokerView {
            state: State::CollectingVideoOnly { start_ms: now, turn_id: v.next_turn_id },
            frames_sent_in_turn: len as usize,
            ..w
        },
        seq![WireMsg::ActivityStart] + video_msgs(v.frames.subrange(len - count, len as int))
            + seq![WireMsg::ActivityEnd],
    )
}

/// The frames of `s` that arrived after `cutoff`, at most five, oldest first.
pub open spec fn frames_after(s: Seq<(Seq<u8>, u64, u64)>, cutoff: int) -> Seq<(Seq<u8>, u64, u64)>
    decreases s.len(),
{
    if s.len() == 0 {
        s
    } else {
        let prev = frames_after(s.drop_last(), cutoff);
        if s.last().2 > cutoff && prev.len() < MAX_FRAMES_PER_TURN {
            prev.push(s.last())
        } else {
            prev
        }
    }
}

/// The broker after an event at time `now`, with the messages it sends.
pub open spec fn broker_step(v: BrokerView, e: Event, now: u64) -> (BrokerView, Seq<WireMsg>) {
    match e {
        Event::Input(InEvent::AudioChunk(_)) => (v, Seq::empty()),
        Event::Input(InEvent::UniqueFrame { jpeg, hash }) => {
            let f = v.frames.push((jpeg@, hash, now));
            let frames = if f.len() > MAX_RECENT_FRAMES {
                f.drop_first()
            } else {
                f
            };
            let w = BrokerView { frames, ..v };
            if v.state == State::Idle && sat_sub(frames.len() as int, v.frames_sent_in_turn as int)
                >= MIN_NEW_FRAMES && sat_sub(now as int, v.last_audio_ms as int) > VIDEO_GRACE_MS {
                video_turn(w, now)
            } else {
                (w, Seq::empty())
            }
        },
        Event::Ws(WsIn::GenerationComplete) => {
            let p = v.tracker.pending;
            let tracker = if p.len() == 0 {
                v.tracker
            } else {
                let lat = sat_sub(now as int, p[0].1 as int) as u64;
                let c = v.tracker.completed.push(lat);
                TrackerView {
                    pending: p.drop_first(),
                    completed: if c.len() > 100 {
                        c.drop_first()
                    } else {
                        c
                    },
                }
            };
            (BrokerView { state: State::Idle, tracker, ..v }, Seq::empty())
        },
        Event::Ws(_) => (v, Seq::empty()),
    }
}

/// The broker after a turn input at time `now`, with the messages it sends.
pub open spec fn speech_step(v: BrokerView, t: TurnInput, now: u64) -> (BrokerView, Seq<WireMsg>) {
    match t {
        TurnInput::SpeechTurn { pcm, t_start_ms, .. } => {
            if v.state != State::Idle {
                (v, Seq::empty())
            } else {
                let w = track_new_turn(v, now);
                let sent = frames_after(v.frames, now - SPEECH_FRAME_WINDOW_MS);
                (
                    BrokerView {
                        state: State::CollectingSpeech { start_ms: t_start_ms, turn_id: v.next_turn_id },
                        last_audio_ms: now,
                        frames_sent_in_turn: v.frames.len() as usize,
                        ..w
                    },
                    seq![WireMsg::ActivityStart, WireMsg::Audio(pcm@)] + video_msgs(sent) + seq![
                        WireMsg::ActivityEnd,
                    ],
                )
            }
        },
        TurnInput::VideoTurn { .. } => (v, Seq::empty()),
        TurnInput::StreamingAudio { bytes, is_start, is_end } => {
            if is_start && v.state != State::Idle {
                (v, Seq::empty())
            } else {
                let (w, m0) = if is_start {
                    (
                        BrokerView {
                            state: State::StreamingSpeech { start_ms: now, turn_id: v.next_turn_id },
                            last_audio_ms: now,
                            ..track_new_turn(v, now)
                        },
                        seq![WireMsg::ActivityStart],
                    )
                } else {
                    (v, Seq::empty())
                };
                let streaming = w.state is StreamingSpeech;
                if bytes@.len() > 0 && !streaming {
                    (w, Seq::empty())
                } else {
                    let m1 = if bytes@.len() > 0 {
                        m0.push(WireMsg::Audio(bytes@))
                    } else {
                        m0
                    };
                    if is_end && !streaming {
                        (w, Seq::empty())
                    } else if is_end {
                        (w, m1.push(WireMsg::ActivityEnd))
                    } else {
                        (w, m1)
                    }
                }
            }
        },
    }
}

/// Dispatches speech turns with recent frames, and video-only turns when
/// enough new frames came during a quiet spell.
pub struct Broker {
    state: State,
    recent_frames: Vec<FrameId>,
    last_audio_ms: u64,
    frames_sent_in_turn: usize,
    next_turn_id: u64,
    tracker: TurnTracker,
}

impl View for Broker {
    type V = BrokerView;

    closed spec fn view(&self) -> BrokerView {
        BrokerView {
            state: self.state,
            frames: frames_view(self.recent_frames@),
            last_audio_ms: self.last_audio_ms,
            frames_sent_in_turn: self.frames_sent_in_turn,
            next_turn_id: self.next_turn_id,
            tracker: self.tracker@,
        }
    }
}

pub open spec fn msgs_of(r: Seq<WireMessage>) -> Seq<WireMsg> {
    r.map_values(|m: WireMessage| m@)
}

proof fn lemma_msgs_push(s: Seq<WireMessage>, m: WireMessage)
    ensures
        msgs_of(s.push(m)) == msgs_of(s).push(m@),
{
    assert(msgs_of(s.push(m)) =~= msgs_of(s).push(m@));
}

impl Broker {
    pub closed spec fn wf(&self) -> bool {
        &&& self.tracker.wf()
        &&& self.recent_frames@.len() <= MAX_RECENT_FRAMES
    }

    /// An idle broker whose last speech was at time `now_ms`.
    pub fn new(now_ms: u64) -> (r: Self)
        ensures
            r.wf(),
            r@.state == State::Idle,
            r@.frames.len() == 0,
            r@.last_audio_ms == now_ms,
            r@.frames_sent_in_turn == 0,
            r@.next_turn_id == 0,
            r@.tracker.pending.len() == 0,
            r@.tracker.completed.len() == 0,
    {
        let r = Broker {
            state: State::Idle,
            recent_frames: Vec::new(),
            last_audio_ms: now_ms,
            frames_sent_in_turn: 0,
            next_turn_id: 0,
            tracker: TurnTracker::new(),
        };
        proof {
            assert(r@.frames =~= Seq::<(Seq<u8>, u64, u64)>::empty());
        }
        r
    }

    fn start_new_tracked_turn(&mut self, now_ms: u64) -> (id: u64)
        requires
            old(self).wf(),
            old(self)@.next_turn_id < u64::MAX,
        ensures
            final(self).wf(),
            id == old(self)@.next_turn_id,
            final(self)@ == track_new_turn(old(self)@, now_ms),
    {
        let id = self.next_turn_id;
        self.next_turn_id = id + 1;
        self.tracker.start_turn(id, now_ms);
        id
    }

    fn push_videos(&self, out: &mut Vec<WireMessage>, from: usize)
        requires
            from <= self.recent_frames@.len(),
        ensures
            msgs_of(final(out)@) == msgs_of(old(out)@) + video_msgs(
                self@.frames.subrange(from as int, self@.frames.len() as int),
            ),
    {
        let n = self.recent_frames.len();
        let mut i = from;
        while i < n
            invariant
                from <= i <= n,
                n == self@.frames.len(),
                msgs_of(out@) == msgs_of(old(out)@) + video_msgs(
                    self@.frames.subrange(from as int, i as int),
                ),
            decreases n - i,
        {
            let ghost prev = out@;
            let jpeg = self.recent_frames[i].jpeg.clone();
            assert(jpeg@ == self@.frames[i as int].0);
            out.push(WireMessage::Video(jpeg));
            proof {
                lemma_msgs_push(prev, WireMessage::Video(jpeg));
                let a = self@.frames.subrange(from as int, i as int);
                let b = self@.frames.subrange(from as int, i as int + 1);
                assert(b == a.push(self@.frames[i as int]));
                assert(video_msgs(b) =~= video_msgs(a).push(WireMsg::Video(self@.frames[i as int].0)));
                assert(msgs_of(out@) =~= msgs_of(old(out)@) + video_msgs(b));
            }
            i = i + 1;
        }
    }

    fn start_video_turn(&mut self, now_ms: u64) -> (r: Vec<WireMessage>)
        requires
            old(self).wf(),
            old(self)@.next_turn_id < u64::MAX,
        ensures
            final(self).wf(),
            (final(self)@, msgs_of(r@)) == video_turn(old(self)@, now_ms),
    {
        let ghost v0 = self@;
        let turn_id = self.start_new_tracked_turn(now_ms);
        self.state = State::CollectingVideoOnly { start_ms: now_ms, turn_id };
        let mut messages: Vec<WireMessage> = Vec::new();
        messages.push(WireMessage::ActivityStart);
        assert(msgs_of(messages@) =~= seq![WireMsg::ActivityStart]);
        let len = self.recent_frames.len();
        let fresh = if len >= self.frames_sent_in_turn {
            len - self.frames_sent_in_turn
        } else {
            0
        };
        let count = if fresh < MAX_FRAMES_PER_TURN {
            fresh
        } else {
            MAX_FRAMES_PER_TURN
        };
        self.push_videos(&mut messages, len - count);
        self.frames_sent_in_turn = len;
        let ghost prev = messages@;
        messages.push(WireMessage::ActivityEnd);
        proof {
            lemma_msgs_push(prev, WireMessage::ActivityEnd);
            let vt = video_turn(v0, now_ms);
            assert(v0.frames == self@.frames);
            assert(msgs_of(messages@) =~= vt.1);
        }
        messages
    }

    /// Handles an input or an inbound event at time `now_ms`.
    pub fn handle(&mut self, event: Event, now_ms: u64) -> (r: Vec<WireMessage>)
        requires
            old(self).wf(),
            old(self)@.next_turn_id < u64::MAX,
        ensures
            final(self).wf(),
            (final(self)@, msgs_of(r@)) == broker_step(old(self)@, event, now_ms),
    {
        let ghost v0 = self@;
        let ghost ev = event;
        match event {
            Event::Input(InEvent::AudioChunk(_)) => {
                let r: Vec<WireMessage> = Vec::new();
                assert(msgs_of(r@) =~= Seq::<WireMsg>::empty());
                r
            },
            Event::Input(InEvent::UniqueFrame { jpeg, hash }) => {
                self.recent_frames.push(FrameId { jpeg, hash, timestamp_ms: now_ms });
                if self.recent_frames.len() > MAX_RECENT_FRAMES {
                    self.recent_frames.remove(0);
                }
                proof {
                    let f = v0.frames.push((ev->Input_0->jpeg@, ev->Input_0->hash, now_ms));
                    if f.len() > MAX_RECENT_FRAMES {
                        assert(self@.frames =~= f.drop_first());
                    } else {
                        assert(self@.frames =~= f);
                    }
                }
                let len = self.recent_frames.len();
                let fresh = if len >= self.frames_sent_in_turn {
                    len - self.frames_sent_in_turn
                } else {
                    0
                };
                let quiet = if now_ms >= self.last_audio_ms {
                    now_ms - self.last_audio_ms
                } else {
                    0
                };
                if self.state == State::Idle && fresh >= MIN_NEW_FRAMES && quiet > VIDEO_GRACE_MS {
                    self.start_video_turn(now_ms)
                } else {
                    let r: Vec<WireMessage> = Vec::new();
                    assert(msgs_of(r@) =~= Seq::<WireMsg>::empty());
                    r
                }
            },
            Event::Ws(WsIn::GenerationComplete) => {
                self.tracker.complete_turn(now_ms);
                self.state = State::Idle;
                let r: Vec<WireMessage> = Vec::new();
                assert(msgs_of(r@) =~= Seq::<WireMsg>::empty());
                r
            },
            Event::Ws(_) => {
                let r: Vec<WireMessage> = Vec::new();
                assert(msgs_of(r@) =~= Seq::<WireMsg>::empty());
                r
            },
        }
    }

    /// Handles a turn input at time `now_ms`.
    pub fn handle_speech_turn(&mut self, turn: TurnInput, now_ms: u64) -> (r: Vec<WireMessage>)
        requires
            old(self).wf(),
            old(self)@.next_turn_id < u64::MAX,
        ensures
            final(self).wf(),
            (final(self)@, msgs_of(r@)) == speech_step(old(self)@, turn, now_ms),
    {
        let ghost v0 = self@;
        let ghost t0 = turn;
        match turn {
            TurnInput::StreamingAudio { bytes, is_start, is_end } => {
                self.handle_streaming_audio(bytes, is_start, is_end, now_ms)
            },
            TurnInput::SpeechTurn { pcm, t_start_ms, draft_text: _ } => {
                if self.state != State::Idle {
                    let r: Vec<WireMessage> = Vec::new();
                    assert(msgs_of(r@) =~= Seq::<WireMsg>::empty());
                    return r;
                }
                let turn_id = self.start_new_tracked_turn(now_ms);
                self.last_audio_ms = now_ms;
                self.state = State::CollectingSpeech { start_ms: t_start_ms, turn_id };
                let ghost pv = pcm@;
                let mut messages: Vec<WireMessage> = Vec::new();
                messages.push(WireMessage::ActivityStart);
                messages.push(WireMessage::Audio(pcm));
                assert(msgs_of(messages@) =~= seq![WireMsg::ActivityStart, WireMsg::Audio(pv)]);
                let ghost cutoff: int = now_ms - SPEECH_FRAME_WINDOW_MS;
                let n = self.recent_frames.len();
                let ghost base = msgs_of(messages@);
                let mut i: usize = 0;
                let mut taken: usize = 0;
                while i < n
                    invariant
                        i <= n,
                        n == self@.frames.len(),
                        self@.frames == v0.frames,
                        cutoff == now_ms - SPEECH_FRAME_WINDOW_MS,
                        taken == frames_after(self@.frames.subrange(0, i as int), cutoff).len(),
                        taken <= MAX_FRAMES_PER_TURN,
                        msgs_of(messages@) == base + video_msgs(
                            frames_after(self@.frames.subrange(0, i as int), cutoff),
                        ),
                    decreases n - i,
                {
                    let ghost sub = self@.frames.subrange(0, i as int);
                    let ghost sub1 = self@.frames.subrange(0, i as int + 1);
                    proof {
                        assert(sub1.drop_last() == sub);
                        assert(sub1.last() == self@.frames[i as int]);
                    }
                    let ts = self.recent_frames[i].timestamp_ms;
                    let recent = now_ms < SPEECH_FRAME_WINDOW_MS || ts > now_ms
                        - SPEECH_FRAME_WINDOW_MS;
                    if recent && taken < MAX_FRAMES_PER_TURN {
                        let ghost prev = messages@;
                        let jpeg = self.recent_frames[i].jpeg.clone();
                        assert(jpeg@ == self@.frames[i as int].0);
                        messages.push(WireMessage::Video(jpeg));
                        taken = taken + 1;
                        proof {
                            lemma_msgs_push(prev, WireMessage::Video(jpeg));
                            let fa = frames_after(sub, cutoff);
                            assert(frames_after(sub1, cutoff) == fa.push(self@.frames[i as int]));
                            assert(video_msgs(fa.push(self@.frames[i as int])) =~= video_msgs(fa).push(
                                WireMsg::Video(self@.frames[i as int].0),
                            ));
                            assert(msgs_of(messages@) =~= base + video_msgs(
                                frames_after(sub1, cutoff),
                            ));
                        }
                    }
                    i = i + 1;
                }
                proof {
                    assert(self@.frames.subrange(0, n as int) == v0.frames);
                }
                self.frames_sent_in_turn = n;
                let ghost prev = messages@;
                messages.push(WireMessage::ActivityEnd);
                proof {
                    lemma_msgs_push(prev, WireMessage::ActivityEnd);
                    let st = speech_step(v0, t0, now_ms);
                    assert(msgs_of(messages@) =~= st.1);
                }
                messages
            },
            TurnInput::VideoTurn { .. } => {
                let r: Vec<WireMessage> = Vec::new();
                assert(msgs_of(r@) =~= Seq::<WireMsg>::empty());
                r
            },
        }
    }

    fn handle_streaming_audio(&mut self, bytes: Vec<u8>, is_start: bool, is_end: bool, now_ms: u64) -> (r:
        Vec<WireMessage>)
        requires
            old(self).wf(),
            old(self)@.next_turn_id < u64::MAX,
        ensures
            final(self).wf(),
            (final(self)@, msgs_of(r@)) == speech_step(
                old(self)@,
                TurnInput::StreamingAudio { bytes, is_start, is_end },
                now_ms,
            ),
    {
        let ghost v0 = self@;
        let ghost bv = bytes@;
        let mut messages: Vec<WireMessage> = Vec::new();
        if is_start {
            if self.state != State::Idle {
                assert(msgs_of(messages@) =~= Seq::<WireMsg>::empty());
                return messages;
            }
            let turn_id = self.start_new_tracked_turn(now_ms);
            self.state = State::StreamingSpeech { start_ms: now_ms, turn_id };
            self.last_audio_ms = now_ms;
            messages.push(WireMessage::ActivityStart);
        }
        let ghost m0 = msgs_of(messages@);
        let streaming = match self.state {
            State::StreamingSpeech { .. } => true,
            _ => false,
        };
        if bytes.len() > 0 {
            if streaming {
                messages.push(WireMessage::Audio(bytes));
            } else {
                let r: Vec<WireMessage> = Vec::new();
                assert(msgs_of(r@) =~= Seq::<WireMsg>::empty());
                return r;
            }
        }
        if is_end {
            if streaming {
                messages.push(WireMessage::ActivityEnd);
            } else {
                let r: Vec<WireMessage> = Vec::new();
                assert(msgs_of(r@) =~= Seq::<WireMsg>::empty());
                return r;
            }
        }
        proof {
            let m1 = if bv.len() > 0 {
                m0.push(WireMsg::Audio(bv))
            } else {
                m0
            };
            if is_end {
                assert(msgs_of(messages@) =~= m1.push(WireMsg::ActivityEnd));
            } else {
                assert(msgs_of(messages@) =~= m1);
            }
        }
        messages
    }

    /// Number of dispatched turns that await an answer.
    pub fn get_pending_turns_count(&self) -> (r: usize)
        ensures
            r == self@.tracker.pending.len(),
    {
        self.tracker.pending_count()
    }

    /// Mean latency of the recent answers in ms, if any.
    pub fn get_average_latency(&self) -> (r: Option<u64>)
        requires
            self.wf(),
        ensures
            self@.tracker.completed.len() == 0 ==> r is None,
            self@.tracker.completed.len() > 0 ==> r == Some(
                crate::latency::stats_of(self@.tracker.completed).average_ms,
            ),
    {
        self.tracker.average_latency()
    }

    /// Current state.
    pub fn state(&self) -> (r: State)
        ensures
            r == self@.state,
    {
        self.state
    }
}

} // verus!
