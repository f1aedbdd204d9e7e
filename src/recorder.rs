//! The recorder's decisions: which turn directory is open, and what goes
//! into it, as it observes the segmenter's events and the wire messages.
use crate::wire::{Outgoing, OutgoingView, WireMessage, WireMsg};
use vstd::prelude::*;

verus! {

/// A file-system step the recorder asks for.
#[derive(Clone, Debug)]
pub enum RecorderAction {
    /// Create the directory of a turn; video-only turns are named apart.
    CreateTurnDir { turn_id: u64, video_only: bool },
    /// Open the turn's raw audio file.
    OpenAudio,
    /// Append PCM bytes to the audio file.
    WriteAudio(Vec<u8>),
    /// Flush and close the audio file.
    CloseAudio,
    /// Save one JPEG frame in the open directory.
    WriteFrame(Vec<u8>),
    /// Stop using the open directory.
    CloseDir,
}

/// An action seen mathematically.
pub enum ActionView {
    CreateTurnDir { turn_id: u64, video_only: bool },
    OpenAudio,
    WriteAudio(Seq<u8>),
    CloseAudio,
    WriteFrame(Seq<u8>),
    CloseDir,
}

impl View for RecorderAction {
    type V = ActionView;

    open spec fn view(&self) -> ActionView {
        match self {
            RecorderAction::CreateTurnDir { turn_id, video_only } => ActionView::CreateTurnDir {
                turn_id: *turn_id,
                video_only: *video_only,
            },
            RecorderAction::OpenAudio => ActionView::OpenAudio,
            RecorderAction::WriteAudio(b) => ActionView::WriteAudio(b@),
            RecorderAction::CloseAudio => ActionView::CloseAudio,
            RecorderAction::WriteFrame(b) => ActionView::WriteFrame(b@),
            RecorderAction::CloseDir => ActionView::CloseDir,
        }
    }
}

pub open spec fn actions_view(s: Seq<RecorderAction>) -> Seq<ActionView> {
    s.map_values(|a: RecorderAction| a@)
}

/// First number given to video-only turns, apart from audio turn ids.
pub const FIRST_VIDEO_TURN: u64 = 1000;

/// The recorder's state.
#[derive(Clone, Copy, Debug, PartialEq, Eq, Structural)]
pub struct TurnRecorder {
    pub enabled: bool,
    /// A turn directory is open.
    pub dir_open: bool,
    /// The audio file is open.
    pub audio_open: bool,
    /// The audio turn ended; its directory closes at the wire's `activityEnd`,
    /// so that the forced frame sent after the speech still lands in it.
    pub pending_audio_close: bool,
    pub next_video_turn: u64,
}

/// The recorder after a segmenter event, with the actions it asks for.
pub open spec fn outgoing_step(s: TurnRecorder, o: OutgoingView) -> (TurnRecorder, Seq<ActionView>) {
    if !s.enabled {
        (s, Seq::empty())
    } else {
        match o {
            OutgoingView::ActivityStart(t) => (
                TurnRecorder { dir_open: true, audio_open: true, pending_audio_close: false, ..s },
                seq![ActionView::CreateTurnDir { turn_id: t, video_only: false }, ActionView::OpenAudio],
            ),
            OutgoingView::AudioChunk(b, _) => (
                s,
                if s.audio_open {
                    seq![ActionView::WriteAudio(b)]
                } else {
                    Seq::empty()
                },
            ),
            OutgoingView::ActivityEnd(_) => (
                TurnRecorder { audio_open: false, pending_audio_close: true, ..s },
                if s.audio_open {
                    seq![ActionView::CloseAudio]
                } else {
                    Seq::empty()
                },
            ),
            OutgoingView::VideoFrame(b, _) => (
                s,
                if s.dir_open {
                    seq![ActionView::WriteFrame(b)]
                } else {
                    Seq::empty()
                },
            ),
        }
    }
}

/// The recorder after a wire message, with the actions it asks for.
pub open spec fn wire_step(s: TurnRecorder, m: WireMsg) -> (TurnRecorder, Seq<ActionView>) {
    if !s.enabled {
        (s, Seq::empty())
    } else {
        match m {
            WireMsg::ActivityStart => if !s.dir_open && s.next_video_turn < u64::MAX {
                (
                    TurnRecorder {
                        dir_open: true,
                        next_video_turn: (s.next_video_turn + 1) as u64,
                        ..s
                    },
                    seq![ActionView::CreateTurnDir { turn_id: s.next_video_turn, video_only: true }],
                )
            } else {
                (s, Seq::empty())
            },
            WireMsg::Video(b) => (
                s,
                if s.dir_open {
                    seq![ActionView::WriteFrame(b)]
                } else {
                    Seq::empty()
                },
            ),
            WireMsg::ActivityEnd => if s.pending_audio_close {
                (
                    TurnRecorder { dir_open: false, pending_audio_close: false, ..s },
                    seq![ActionView::CloseDir],
                )
            } else if s.dir_open {
                (TurnRecorder { dir_open: false, ..s }, seq![ActionView::CloseDir])
            } else {
                (s, Seq::empty())
            },
            _ => (s, Seq::empty()),
        }
    }
}

impl TurnRecorder {
    /// A recorder with no directory open; it acts only when `enabled`.
    pub fn new(enabled: bool) -> (r: Self)
        ensures
            r == (TurnRecorder {
                enabled,
                dir_open: false,
                audio_open: false,
                pending_audio_close: false,
                next_video_turn: FIRST_VIDEO_TURN,
            }),
    {
        TurnRecorder {
            enabled,
            dir_open: false,
            audio_open: false,
            pending_audio_close: false,
            next_video_turn: FIRST_VIDEO_TURN,
        }
    }

    /// Observes an event of the segmenter.
    pub fn on_outgoing(&mut self, o: &Outgoing) -> (r: Vec<RecorderAction>)
        ensures
            (*final(self), actions_view(r@)) == outgoing_step(*old(self), o@),
    {
        let mut acts: Vec<RecorderAction> = Vec::new();
        if !self.enabled {
            proof {
                assert(actions_view(acts@) =~= Seq::<ActionView>::empty());
            }
            return acts;
        }
        match o {
            Outgoing::ActivityStart(t) => {
                acts.push(RecorderAction::CreateTurnDir { turn_id: *t, video_only: false });
                acts.push(RecorderAction::OpenAudio);
                self.dir_open = true;
                self.audio_open = true;
                self.pending_audio_close = false;
            },
            Outgoing::AudioChunk(b, _) => {
                if self.audio_open {
                    acts.push(RecorderAction::WriteAudio(b.clone()));
                }
            },
            Outgoing::ActivityEnd(_) => {
                if self.audio_open {
                    acts.push(RecorderAction::CloseAudio);
                }
                self.audio_open = false;
                self.pending_audio_close = true;
            },
            Outgoing::VideoFrame(b, _) => {
                if self.dir_open {
                    acts.push(RecorderAction::WriteFrame(b.clone()));
                }
            },
        }
        proof {
            assert(actions_view(acts@) =~= outgoing_step(*old(self), o@).1);
        }
        acts
    }

    /// Observes an outbound wire message.
    pub fn on_ws(&mut self, m: &WireMessage) -> (r: Vec<RecorderAction>)
        ensures
            (*final(self), actions_view(r@)) == wire_step(*old(self), m@),
    {
        let mut acts: Vec<RecorderAction> = Vec::new();
        if !self.enabled {
            proof {
                assert(actions_view(acts@) =~= Seq::<ActionView>::empty());
            }
            return acts;
        }
        match m {
            WireMessage::ActivityStart => {
                if !self.dir_open && self.next_video_turn < u64::MAX {
                    acts.push(
                        RecorderAction::CreateTurnDir {
                            turn_id: self.next_video_turn,
                            video_only: true,
                        },
                    );
                    self.dir_open = true;
                    self.next_video_turn = self.next_video_turn + 1;
                }
            },
            WireMessage::Video(b) => {
                if self.dir_open {
                    acts.push(RecorderAction::WriteFrame(b.clone()));
                }
            },
            WireMessage::ActivityEnd => {
                if self.pending_audio_close {
                    acts.push(RecorderAction::CloseDir);
                    self.dir_open = false;
                    self.pending_audio_close = false;
                } else if self.dir_open {
                    acts.push(RecorderAction::CloseDir);
                    self.dir_open = false;
                }
            },
            _ => {},
        }
        proof {
            assert(actions_view(acts@) =~= wire_step(*old(self), m@).1);
        }
        acts
    }
}

} // verus!
