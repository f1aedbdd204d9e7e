//! Media events exchanged between the capture tasks and the pipeline.
use vstd::prelude::*;

verus! {

/// Events of the capture layer.
#[derive(Clone, Debug)]
pub enum MediaEvent {
    /// One 20 ms frame of 16 kHz mono PCM.
    AudioFrame { pcm: Vec<i16>, timestamp_ms: u64 },
    /// A deduplicated JPEG frame.
    VideoFrame { jpeg: Vec<u8>, frame_id: u64, timestamp_ms: u64 },
    /// A request for one frame now, ignoring deduplication.
    ForceCaptureRequest { requester_id: String },
}

/// Which audio to capture.
#[derive(Clone, Copy, Debug, PartialEq, Eq, Structural)]
pub enum AudioSource {
    Microphone,
    /// What the system plays back.
    System,
    /// Both, mixed 7:3.
    Both,
}

impl Default for AudioSource {
    fn default() -> (r: Self)
        ensures
            r == AudioSource::Both,
    {
        AudioSource::Both
    }
}

/// The name of the default playback monitor source.
pub fn get_default_monitor_source() -> (r: String)
    ensures
        r@ == "@DEFAULT_MONITOR@"@,
{
    "@DEFAULT_MONITOR@".to_string()
}

} // verus!
