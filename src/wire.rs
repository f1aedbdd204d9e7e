//! Wire messages of the activity protocol and their JSON text.
use base64::Engine;
use vstd::prelude::*;

verus! {

/// How the remote service treats new activity while it is still answering.
#[derive(Clone, Copy, Debug, PartialEq, Eq, Structural)]
pub enum ActivityMode {
    /// New activity waits for the current answer.
    NoInterruption,
    /// The start of new activity interrupts the current answer.
    StartOfActivityInterrupts,
}

impl ActivityMode {
    pub open spec fn spec_text(self) -> Seq<char> {
        match self {
            ActivityMode::NoInterruption => "NO_INTERRUPTION"@,
            ActivityMode::StartOfActivityInterrupts => "START_OF_ACTIVITY_INTERRUPTS"@,
        }
    }

    /// The protocol's name for the mode.
    pub fn as_str(&self) -> (r: &'static str)
        ensures
            r@ == self.spec_text(),
    {
        match self {
            ActivityMode::NoInterruption => "NO_INTERRUPTION",
            ActivityMode::StartOfActivityInterrupts => "START_OF_ACTIVITY_INTERRUPTS",
        }
    }
}

/// One outbound message of the activity protocol. Payloads and markers are
/// separate values, so no message carries both.
#[derive(Clone, Debug)]
pub enum WireMessage {
    ActivityStart,
    ActivityEnd,
    /// 16 kHz mono little-endian PCM bytes.
    Audio(Vec<u8>),
    /// JPEG bytes.
    Video(Vec<u8>),
    /// A setup update that switches the activity-handling mode.
    Setup(ActivityMode),
}

/// A wire message seen mathematically.
pub enum WireMsg {
    ActivityStart,
    ActivityEnd,
    Audio(Seq<u8>),
    Video(Seq<u8>),
    Setup(ActivityMode),
}

impl View for WireMessage {
    type V = WireMsg;

    open spec fn view(&self) -> WireMsg {
        match self {
            WireMessage::ActivityStart => WireMsg::ActivityStart,
            WireMessage::ActivityEnd => WireMsg::ActivityEnd,
            WireMessage::Audio(b) => WireMsg::Audio(b@),
            WireMessage::Video(b) => WireMsg::Video(b@),
            WireMessage::Setup(m) => WireMsg::Setup(*m),
        }
    }
}

/// The views of a sequence of wire messages.
pub open spec fn msgs_view(s: Seq<WireMessage>) -> Seq<WireMsg> {
    s.map_values(|m: WireMessage| m@)
}

/// Where a stream of wire messages stands: whether a turn is open, and
/// whether the interrupting mode is in force.
pub open spec fn stream_state(s: Seq<WireMsg>) -> (bool, bool)
    decreases s.len(),
{
    if s.len() == 0 {
        (false, false)
    } else {
        let (open, switched) = stream_state(s.drop_last());
        match s.last() {
            WireMsg::ActivityStart => (true, switched),
            WireMsg::ActivityEnd => (false, switched),
            WireMsg::Setup(ActivityMode::StartOfActivityInterrupts) => (open, true),
            WireMsg::Setup(ActivityMode::NoInterruption) => (open, false),
            _ => (open, switched),
        }
    }
}

/// Which message may follow a stream in the given state: markers alternate,
/// starting with `activityStart`; audio and video lie inside a turn; the
/// interrupting mode is switched on only between turns, and switched back
/// inside the turn that follows, before its `activityEnd`.
pub open spec fn may_follow(st: (bool, bool), m: WireMsg) -> bool {
    let (open, switched) = st;
    match m {
        WireMsg::ActivityStart => !open,
        WireMsg::ActivityEnd => open && !switched,
        WireMsg::Audio(_) => open,
        WireMsg::Video(_) => open,
        WireMsg::Setup(ActivityMode::StartOfActivityInterrupts) => !open && !switched,
        WireMsg::Setup(ActivityMode::NoInterruption) => open && switched,
    }
}

/// Every message of the stream may follow what came before it.
pub open spec fn stream_ok(s: Seq<WireMsg>) -> bool
    decreases s.len(),
{
    s.len() == 0 || (stream_ok(s.drop_last()) && may_follow(stream_state(s.drop_last()), s.last()))
}

pub proof fn lemma_stream_push(s: Seq<WireMsg>, m: WireMsg)
    requires
        stream_ok(s),
        may_follow(stream_state(s), m),
    ensures
        stream_ok(s + seq![m]),
        stream_state(s + seq![m]) == ({
            let (open, switched) = stream_state(s);
            match m {
                WireMsg::ActivityStart => (true, switched),
                WireMsg::ActivityEnd => (false, switched),
                WireMsg::Setup(ActivityMode::StartOfActivityInterrupts) => (open, true),
                WireMsg::Setup(ActivityMode::NoInterruption) => (open, false),
                _ => (open, switched),
            }
        }),
{
    assert((s + seq![m]).drop_last() == s);
    assert((s + seq![m]).last() == m);
}

/// The standard base64 text (with padding) of some bytes.
pub uninterp spec fn base64_standard(b: Seq<u8>) -> Seq<char>;

/// Relies on base64's `STANDARD` engine `encode`: the padded encoding of the
/// bytes over the standard alphabet. Its length computation overflows only for
/// inputs longer than half the address space.
#[verifier::external_body]
fn base64_encode(b: &[u8]) -> (r: String)
    requires
        b@.len() <= usize::MAX / 2,
    ensures
        r@ == base64_standard(b@),
{
    base64::engine::general_purpose::STANDARD.encode(b)
}

/// The JSON text of a wire message, compact, keys in order.
pub open spec fn json_text(m: WireMsg) -> Seq<char> {
    match m {
        WireMsg::ActivityStart => "{\"activityStart\":{}}"@,
        WireMsg::ActivityEnd => "{\"activityEnd\":{}}"@,
        WireMsg::Audio(b) => "{\"audio\":{\"data\":\""@ + base64_standard(b)
            + "\",\"mimeType\":\"audio/pcm;rate=16000\"}}"@,
        WireMsg::Video(b) => "{\"video\":{\"data\":\""@ + base64_standard(b)
            + "\",\"mimeType\":\"image/jpeg\"}}"@,
        WireMsg::Setup(mode) => "{\"setup\":{\"realtimeInputConfig\":{\"activityHandling\":\""@
            + mode.spec_text() + "\"}}}"@,
    }
}

/// The number of payload bytes a message carries.
pub open spec fn payload_len(m: WireMsg) -> nat {
    match m {
        WireMsg::Audio(b) => b.len(),
        WireMsg::Video(b) => b.len(),
        _ => 0,
    }
}

impl WireMessage {
    /// The JSON text that goes on the wire for this message.
    pub fn to_json(&self) -> (r: String)
        requires
            payload_len(self@) <= usize::MAX / 2,
        ensures
            r@ == json_text(self@),
    {
        match self {
            WireMessage::ActivityStart => "{\"activityStart\":{}}".to_string(),
            WireMessage::ActivityEnd => "{\"activityEnd\":{}}".to_string(),
            WireMessage::Audio(b) => {
                let data = base64_encode(b.as_slice());
                let mut s = "{\"audio\":{\"data\":\"".to_string();
                s.append(data.as_str());
                s.append("\",\"mimeType\":\"audio/pcm;rate=16000\"}}");
                s
            },
            WireMessage::Video(b) => {
                let data = base64_encode(b.as_slice());
                let mut s = "{\"video\":{\"data\":\"".to_string();
                s.append(data.as_str());
                s.append("\",\"mimeType\":\"image/jpeg\"}}");
                s
            },
            WireMessage::Setup(mode) => {
                let mut s = "{\"setup\":{\"realtimeInputConfig\":{\"activityHandling\":\"".to_string();
                s.append(mode.as_str());
                s.append("\"}}}");
                s
            },
        }
    }
}

/// Messages from the audio segmenter to the wire writer, tagged with a turn id.
#[derive(Clone, Debug)]
pub enum Outgoing {
    ActivityStart(u64),
    AudioChunk(Vec<u8>, u64),
    VideoFrame(Vec<u8>, u64),
    ActivityEnd(u64),
}

/// An `Outgoing` value seen mathematically.
pub enum OutgoingView {
    ActivityStart(u64),
    AudioChunk(Seq<u8>, u64),
    VideoFrame(Seq<u8>, u64),
    ActivityEnd(u64),
}

impl View for Outgoing {
    type V = OutgoingView;

    open spec fn view(&self) -> OutgoingView {
        match self {
            Outgoing::ActivityStart(t) => OutgoingView::ActivityStart(*t),
            Outgoing::AudioChunk(b, t) => OutgoingView::AudioChunk(b@, *t),
            Outgoing::VideoFrame(b, t) => OutgoingView::VideoFrame(b@, *t),
            Outgoing::ActivityEnd(t) => OutgoingView::ActivityEnd(*t),
        }
    }
}

/// The wire message that an `Outgoing` value stands for.
pub open spec fn outgoing_msg(o: Outgoing) -> WireMsg {
    match o {
        Outgoing::ActivityStart(_) => WireMsg::ActivityStart,
        Outgoing::AudioChunk(b, _) => WireMsg::Audio(b@),
        Outgoing::VideoFrame(b, _) => WireMsg::Video(b@),
        Outgoing::ActivityEnd(_) => WireMsg::ActivityEnd,
    }
}

impl Outgoing {
    /// The turn id that the value carries.
    pub fn turn_id(&self) -> (r: u64)
        ensures
            r == match self {
                Outgoing::ActivityStart(t) => *t,
                Outgoing::AudioChunk(_, t) => *t,
                Outgoing::VideoFrame(_, t) => *t,
                Outgoing::ActivityEnd(t) => *t,
            },
    {
        match self {
            Outgoing::ActivityStart(t) => *t,
            Outgoing::AudioChunk(_, t) => *t,
            Outgoing::VideoFrame(_, t) => *t,
            Outgoing::ActivityEnd(t) => *t,
        }
    }

    /// Converts to the wire message it stands for.
    pub fn into_wire(self) -> (r: WireMessage)
        ensures
            r@ == outgoing_msg(self),
    {
        match self {
            Outgoing::ActivityStart(_) => WireMessage::ActivityStart,
            Outgoing::AudioChunk(b, _) => WireMessage::Audio(b),
            Outgoing::VideoFrame(b, _) => WireMessage::Video(b),
            Outgoing::ActivityEnd(_) => WireMessage::ActivityEnd,
        }
    }
}

} // verus!
