//! Turn orchestration for a screen-and-voice copilot: an audio ring buffer,
//! voice segmentation, and the state machine that frames turns for a
//! streaming model service.
pub mod boundary;
pub mod broker;
pub mod clause;
pub mod config;
pub mod emitter;
pub mod gemini;
pub mod latency;
pub mod media;
pub mod pcm;
pub mod recorder;
pub mod ring;
pub mod segmenter;
pub mod turn;
pub mod wire;
