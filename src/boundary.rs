//! The boundary state machine: turns voiced/unvoiced frame labels and
//! transcription proposals into segment boundaries.
use crate::clause::{
    is_valid_clause_relaxed, is_valid_clause_simple, valid_clause, valid_clause_relaxed,
    AsrProposal,
};
use crate::config::SegConfig;
use vstd::prelude::*;

verus! {

/// The voiced score is kept in thousandths.
pub const SCORE_UNIT: u64 = 1000;

/// A segment opens when the voiced score reaches three units.
pub const OPEN_SCORE: u64 = 3000;

/// Pre-roll, in samples, when a segment opens from silence (500 ms).
pub const PRE_ROLL_SAMPLES: usize = 8000;

/// Pre-roll, in samples, when a segment reopens after a clause close (100 ms).
pub const REOPEN_PRE_ROLL_SAMPLES: usize = 1600;

/// Metadata of one 20 ms frame.
#[derive(Clone, Copy, Debug)]
pub struct FrameMeta {
    /// Arrival time, in ms on the caller's clock.
    pub timestamp_ms: u64,
    /// Global index of the frame's first sample.
    pub start_idx: usize,
    pub voiced: bool,
}

/// States of the boundary state machine.
#[derive(Clone, Copy, Debug, PartialEq, Eq, Structural)]
pub enum BoundaryState {
    Idle,
    Recording { seg_start_idx: usize, last_voice_idx: usize, started_at_ms: u64 },
    Committing { seg_start_idx: usize, last_voice_idx: usize, started_at_ms: u64 },
}

/// A segment boundary: the global index range of the segment, and for a
/// clause close, the clause's text.
#[derive(Clone, Debug)]
pub enum BoundaryEvent {
    SilenceClose(usize, usize),
    MaxLenClose(usize, usize),
    AsrClose(usize, usize, String),
}

/// A boundary seen mathematically.
pub enum BoundaryEventView {
    SilenceClose(int, int),
    MaxLenClose(int, int),
    AsrClose(int, int, Seq<char>),
}

impl View for BoundaryEvent {
    type V = BoundaryEventView;

    open spec fn view(&self) -> BoundaryEventView {
        match self {
            BoundaryEvent::SilenceClose(a, b) => BoundaryEventView::SilenceClose(*a as int, *b as int),
            BoundaryEvent::MaxLenClose(a, b) => BoundaryEventView::MaxLenClose(*a as int, *b as int),
            BoundaryEvent::AsrClose(a, b, t) => BoundaryEventView::AsrClose(
                *a as int,
                *b as int,
                t@,
            ),
        }
    }
}

/// The boundary state machine seen mathematically.
pub struct BoundaryView {
    pub config: SegConfig,
    pub state: BoundaryState,
    /// Voiced score in thousandths.
    pub score: u64,
    pub next_seg_id: u64,
    /// Proposals received since the last frame: (clause end, text).
    pub proposals: Seq<(usize, Seq<char>)>,
}

pub open spec fn sat_sub(a: int, b: int) -> int {
    if a >= b {
        a - b
    } else {
        0
    }
}

/// The decayed score after one frame: `0.75 * score + (voiced ? 1 : 0)`, in
/// thousandths rounded down.
pub open spec fn next_score(score: u64, voiced: bool) -> u64 {
    (score * 3 / 4 + if voiced {
        SCORE_UNIT
    } else {
        0
    }) as u64
}

/// Milliseconds of silence since the last voiced sample, at 16 kHz.
pub open spec fn silence_ms(current: int, last_voice: int) -> int {
    sat_sub(current, last_voice) * 1000 / 16000
}

/// The clause rule in force.
pub open spec fn clause_ok(config: SegConfig, text: Seq<char>) -> bool {
    if config.relaxed_clauses {
        valid_clause_relaxed(text, config.min_clause_tokens as nat)
    } else {
        valid_clause(text, config.min_clause_tokens as nat)
    }
}

/// A proposal closes the segment opened at `seg_start` at global index
/// `current`: it ends strictly inside the segment and its text is a clause.
pub open spec fn proposal_applies(
    config: SegConfig,
    p: (usize, Seq<char>),
    seg_start: int,
    current: int,
) -> bool {
    seg_start < p.0 && p.0 < current && clause_ok(config, p.1)
}

/// Index of the first applicable proposal in `props[i..]`.
pub open spec fn first_applicable(
    config: SegConfig,
    props: Seq<(usize, Seq<char>)>,
    i: int,
    seg_start: int,
    current: int,
) -> Option<int>
    decreases props.len() - i,
{
    if i < 0 || i >= props.len() {
        None
    } else if proposal_applies(config, props[i], seg_start, current) {
        Some(i)
    } else {
        first_applicable(config, props, i + 1, seg_start, current)
    }
}

proof fn lemma_first_applicable(
    config: SegConfig,
    props: Seq<(usize, Seq<char>)>,
    i: int,
    seg_start: int,
    current: int,
)
    requires
        0 <= i,
    ensures
        first_applicable(config, props, i, seg_start, current) matches Some(k) ==> i <= k
            < props.len() && proposal_applies(config, props[k], seg_start, current),
    decreases props.len() - i,
{
    if i < props.len() && !proposal_applies(config, props[i], seg_start, current) {
        lemma_first_applicable(config, props, i + 1, seg_start, current);
    }
}

/// The machine after one frame, when `current` samples have been written,
/// with the boundary it emits, if any. Proposals are consumed by every frame.
pub open spec fn boundary_step(v: BoundaryView, f: FrameMeta, current: int) -> (
    BoundaryView,
    Option<(u64, BoundaryEventView)>,
) {
    let score = next_score(v.score, f.voiced);
    let now = f.timestamp_ms;
    let base = BoundaryView { score, proposals: Seq::empty(), ..v };
    match v.state {
        BoundaryState::Idle => {
            if score >= OPEN_SCORE {
                (
                    BoundaryView {
                        state: BoundaryState::Recording {
                            seg_start_idx: sat_sub(f.start_idx as int, 8000) as usize,
                            last_voice_idx: f.start_idx,
                            started_at_ms: now,
                        },
                        ..base
                    },
                    None,
                )
            } else {
                (base, None)
            }
        },
        BoundaryState::Recording { seg_start_idx, last_voice_idx, started_at_ms } => {
            let lv = if f.voiced {
                f.start_idx
            } else {
                last_voice_idx
            };
            let closed = BoundaryView {
                state: BoundaryState::Idle,
                score: 0,
                next_seg_id: (v.next_seg_id + 1) as u64,
                ..base
            };
            if sat_sub(now as int, started_at_ms as int) >= v.config.max_turn_ms {
                (
                    closed,
                    Some(
                        (
                            v.next_seg_id,
                            BoundaryEventView::MaxLenClose(seg_start_idx as int, current),
                        ),
                    ),
                )
            } else if silence_ms(current, lv as int) >= v.config.close_silence_ms {
                (
                    closed,
                    Some(
                        (
                            v.next_seg_id,
                            BoundaryEventView::SilenceClose(seg_start_idx as int, current),
                        ),
                    ),
                )
            } else {
                match first_applicable(v.config, v.proposals, 0, seg_start_idx as int, current) {
                    Some(k) => {
                        let p = v.proposals[k];
                        (
                            BoundaryView {
                                state: BoundaryState::Committing {
                                    seg_start_idx: p.0,
                                    last_voice_idx: p.0,
                                    started_at_ms: now,
                                },
                                next_seg_id: (v.next_seg_id + 1) as u64,
                                ..base
                            },
                            Some(
                                (
                                    v.next_seg_id,
                                    BoundaryEventView::AsrClose(seg_start_idx as int, p.0 as int, p.1),
                                ),
                            ),
                        )
                    },
                    None => (
                        BoundaryView {
                            state: BoundaryState::Recording {
                                seg_start_idx,
                                last_voice_idx: lv,
                                started_at_ms,
                            },
                            ..base
                        },
                        None,
                    ),
                }
            }
        },
        BoundaryState::Committing { .. } => {
            if score >= OPEN_SCORE {
                (
                    BoundaryView {
                        state: BoundaryState::Recording {
                            seg_start_idx: sat_sub(f.start_idx as int, 1600) as usize,
                            last_voice_idx: f.start_idx,
                            started_at_ms: now,
                        },
                        ..base
                    },
                    None,
                )
            } else {
                (base, None)
            }
        },
    }
}

/// Decides segment boundaries from frame labels and transcription proposals.
pub struct BoundaryFSM {
    config: SegConfig,
    state: BoundaryState,
    voiced_score: u64,
    next_seg_id: u64,
    proposals: Vec<AsrProposal>,
}

pub open spec fn proposals_view(s: Seq<AsrProposal>) -> Seq<(usize, Seq<char>)> {
    s.map_values(|p: AsrProposal| (p.clause_end_idx, p.text@))
}

impl View for BoundaryFSM {
    type V = BoundaryView;

    closed spec fn view(&self) -> BoundaryView {
        BoundaryView {
            config: self.config,
            state: self.state,
            score: self.voiced_score,
            next_seg_id: self.next_seg_id,
            proposals: proposals_view(self.proposals@),
        }
    }
}

proof fn lemma_silence_ms(x: int)
    requires
        x >= 0,
    ensures
        x * 1000 / 16000 == x / 16,
{
    assert(x * 1000 / 16000 == x / 16) by (nonlinear_arith)
        requires
            x >= 0,
    ;
}

impl BoundaryFSM {
    /// The voiced score stays below four units.
    pub closed spec fn wf(&self) -> bool {
        self.voiced_score <= 4 * SCORE_UNIT
    }

    /// A machine in `Idle`, with score 0, whose first segment gets id 1.
    pub fn new(config: SegConfig) -> (r: Self)
        ensures
            r.wf(),
            r@.config == config,
            r@.state == BoundaryState::Idle,
            r@.score == 0,
            r@.next_seg_id == 1,
            r@.proposals.len() == 0,
    {
        let r = BoundaryFSM {
            config,
            state: BoundaryState::Idle,
            voiced_score: 0,
            next_seg_id: 1,
            proposals: Vec::new(),
        };
        proof {
            assert(r@.proposals =~= Seq::<(usize, Seq<char>)>::empty());
        }
        r
    }

    /// Queues a transcription proposal for the next frame.
    pub fn add_proposal(&mut self, p: AsrProposal)
        ensures
            final(self)@ == (BoundaryView {
                proposals: old(self)@.proposals.push((p.clause_end_idx, p.text@)),
                ..old(self)@
            }),
            final(self).wf() == old(self).wf(),
    {
        let ghost pv = (p.clause_end_idx, p.text@);
        self.proposals.push(p);
        proof {
            assert(proposals_view(self.proposals@) =~= proposals_view(old(self).proposals@).push(
                pv,
            ));
        }
    }

    fn clause_ok(&self, text: &str) -> (r: bool)
        ensures
            r == clause_ok(self.config, text@),
    {
        if self.config.relaxed_clauses {
            is_valid_clause_relaxed(text, self.config.min_clause_tokens)
        } else {
            is_valid_clause_simple(text, self.config.min_clause_tokens)
        }
    }

    /// Index of the first queued proposal that closes a segment opened at
    /// `seg_start` when `current` samples have been written.
    fn find_proposal(&self, seg_start: usize, current: usize) -> (r: Option<usize>)
        ensures
            r is None <==> first_applicable(
                self.config,
                self@.proposals,
                0,
                seg_start as int,
                current as int,
            ) is None,
            r matches Some(k) ==> first_applicable(
                self.config,
                self@.proposals,
                0,
                seg_start as int,
                current as int,
            ) == Some(k as int) && k < self.proposals@.len(),
    {
        proof {
            lemma_first_applicable(self.config, self@.proposals, 0, seg_start as int, current as int);
        }
        let n = self.proposals.len();
        let mut i: usize = 0;
        while i < n
            invariant
                i <= n,
                n == self@.proposals.len(),
                first_applicable(self.config, self@.proposals, 0, seg_start as int, current as int)
                    == first_applicable(
                    self.config,
                    self@.proposals,
                    i as int,
                    seg_start as int,
                    current as int,
                ),
            decreases n - i,
        {
            let p = &self.proposals[i];
            assert(self@.proposals[i as int] == (p.clause_end_idx, p.text@));
            if seg_start < p.clause_end_idx && p.clause_end_idx < current && self.clause_ok(
                p.text.as_str(),
            ) {
                return Some(i);
            }
            i = i + 1;
        }
        None
    }

    /// Processes one frame, given the number of samples written so far;
    /// returns the boundary it closes, with the segment's id, if any. At most
    /// one boundary comes per frame, and ids go up by one per boundary.
    pub fn process_frame(&mut self, frame: &FrameMeta, current_global_idx: usize) -> (r: Option<
        (u64, BoundaryEvent),
    >)
        requires
            old(self).wf(),
            old(self)@.next_seg_id < u64::MAX,
        ensures
            final(self).wf(),
            final(self)@ == boundary_step(old(self)@, *frame, current_global_idx as int).0,
            match boundary_step(old(self)@, *frame, current_global_idx as int).1 {
                Some((id, e)) => r matches Some((rid, re)) && rid == id && re@ == e,
                None => r is None,
            },
            r is Some <==> final(self)@.next_seg_id == old(self)@.next_seg_id + 1,
            r is None <==> final(self)@.next_seg_id == old(self)@.next_seg_id,
            r matches Some((id, _)) ==> id == old(self)@.next_seg_id,
    {
        let ghost v0 = self@;
        let score = self.voiced_score / 4 * 3 + (self.voiced_score % 4) * 3 / 4;
        assert(score == self.voiced_score * 3 / 4) by (nonlinear_arith)
            requires
                score == self.voiced_score / 4 * 3 + (self.voiced_score % 4) * 3 / 4,
        ;
        let score = if frame.voiced {
            score + SCORE_UNIT
        } else {
            score
        };
        let now = frame.timestamp_ms;
        let mut result: Option<(u64, BoundaryEvent)> = None;
        match self.state {
            BoundaryState::Idle => {
                self.voiced_score = score;
                if score >= OPEN_SCORE {
                    let seg_start_idx = if frame.start_idx >= PRE_ROLL_SAMPLES {
                        frame.start_idx - PRE_ROLL_SAMPLES
                    } else {
                        0
                    };
                    self.state = BoundaryState::Recording {
                        seg_start_idx,
                        last_voice_idx: frame.start_idx,
                        started_at_ms: now,
                    };
                }
            },
            BoundaryState::Recording { seg_start_idx, last_voice_idx, started_at_ms } => {
                self.voiced_score = score;
                let lv = if frame.voiced {
                    frame.start_idx
                } else {
                    last_voice_idx
                };
                let elapsed = if now >= started_at_ms {
                    now - started_at_ms
                } else {
                    0
                };
                let silence_samples = if current_global_idx >= lv {
                    current_global_idx - lv
                } else {
                    0
                };
                let silence = silence_samples / 16;
                proof {
                    lemma_silence_ms(silence_samples as int);
                }
                if elapsed >= self.config.max_turn_ms {
                    result = Some(
                        (self.next_seg_id, BoundaryEvent::MaxLenClose(seg_start_idx, current_global_idx)),
                    );
                    self.next_seg_id = self.next_seg_id + 1;
                    self.state = BoundaryState::Idle;
                    self.voiced_score = 0;
                } else if silence as u64 >= self.config.close_silence_ms {
                    result = Some(
                        (self.next_seg_id, BoundaryEvent::SilenceClose(seg_start_idx, current_global_idx)),
                    );
                    self.next_seg_id = self.next_seg_id + 1;
                    self.state = BoundaryState::Idle;
                    self.voiced_score = 0;
                } else {
                    assert(!(silence_ms(current_global_idx as int, lv as int)
                        >= v0.config.close_silence_ms));
                    assert(!(sat_sub(now as int, started_at_ms as int) >= v0.config.max_turn_ms));
                    match self.find_proposal(seg_start_idx, current_global_idx) {
                        Some(k) => {
                            let end = self.proposals[k].clause_end_idx;
                            let text = self.proposals[k].text.clone();
                            assert(v0.proposals[k as int] == (end, text@));
                            result = Some(
                                (self.next_seg_id, BoundaryEvent::AsrClose(seg_start_idx, end, text)),
                            );
                            self.next_seg_id = self.next_seg_id + 1;
                            self.state = BoundaryState::Committing {
                                seg_start_idx: end,
                                last_voice_idx: end,
                                started_at_ms: now,
                            };
                        },
                        None => {
                            self.state = BoundaryState::Recording {
                                seg_start_idx,
                                last_voice_idx: lv,
                                started_at_ms,
                            };
                        },
                    }
                }
            },
            BoundaryState::Committing { .. } => {
                self.voiced_score = score;
                if score >= OPEN_SCORE {
                    let seg_start_idx = if frame.start_idx >= REOPEN_PRE_ROLL_SAMPLES {
                        frame.start_idx - REOPEN_PRE_ROLL_SAMPLES
                    } else {
                        0
                    };
                    self.state = BoundaryState::Recording {
                        seg_start_idx,
                        last_voice_idx: frame.start_idx,
                        started_at_ms: now,
                    };
                }
            },
        }
        self.proposals = Vec::new();
        proof {
            assert(self@.proposals =~= Seq::<(usize, Seq<char>)>::empty());
        }
        result
    }

    /// The range of the open segment, to the end of the stream, if one is open.
    pub fn get_current_segment_range(&self) -> (r: Option<std::ops::Range<usize>>)
        ensures
            match self@.state {
                BoundaryState::Recording { seg_start_idx, .. } => r matches Some(g) && g.start
                    == seg_start_idx && g.end == usize::MAX,
                BoundaryState::Committing { seg_start_idx, .. } => r matches Some(g) && g.start
                    == seg_start_idx && g.end == usize::MAX,
                BoundaryState::Idle => r is None,
            },
    {
        match self.state {
            BoundaryState::Recording { seg_start_idx, .. } => Some(
                std::ops::Range { start: seg_start_idx, end: usize::MAX },
            ),
            BoundaryState::Committing { seg_start_idx, .. } => Some(
                std::ops::Range { start: seg_start_idx, end: usize::MAX },
            ),
            BoundaryState::Idle => None,
        }
    }

    /// The current state.
    pub fn get_state(&self) -> (r: &BoundaryState)
        ensures
            *r == self@.state,
    {
        &self.state
    }

    /// The id the next boundary will carry.
    pub fn next_segment_id(&self) -> (r: u64)
        ensures
            r == self@.next_seg_id,
    {
        self.next_seg_id
    }
}

} // verus!
