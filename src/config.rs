//! Segmenter configuration.
use vstd::prelude::*;

verus! {

/// Configuration of the audio segmenter.
#[derive(Clone, Copy, Debug)]
pub struct SegConfig {
    /// Voiced frames to open a segment (informational: opening goes by the
    /// voiced score).
    pub open_voiced_frames: usize,
    /// Silence that closes a segment, in ms.
    pub close_silence_ms: u64,
    /// Hard cap on a segment's duration, in ms.
    pub max_turn_ms: u64,
    /// Words that make a transcript a clause.
    pub min_clause_tokens: usize,
    /// Minimum interval between transcription requests, in ms.
    pub asr_poll_ms: u64,
    /// Ring capacity in samples.
    pub ring_capacity: usize,
    /// Number of transcription workers.
    pub asr_pool_size: usize,
    /// How long the emitter waits for a late transcript, in ms.
    pub asr_timeout_ms: u64,
    /// Also accept clauses that end in a comma, a dash or a conjunction.
    pub relaxed_clauses: bool,
}

impl Default for SegConfig {
    fn default() -> (r: Self)
        ensures
            r.open_voiced_frames == 6,
            r.close_silence_ms == 300,
            r.max_turn_ms == 5000,
            r.min_clause_tokens == 4,
            r.asr_poll_ms == 250,
            r.ring_capacity == 320_000,
            r.asr_pool_size == 2,
            r.asr_timeout_ms == 2000,
            !r.relaxed_clauses,
    {
        SegConfig {
            open_voiced_frames: 6,
            close_silence_ms: 300,
            max_turn_ms: 5000,
            min_clause_tokens: 4,
            asr_poll_ms: 250,
            ring_capacity: 320_000,
            asr_pool_size: 2,
            asr_timeout_ms: 2000,
            relaxed_clauses: false,
        }
    }
}

} // verus!
