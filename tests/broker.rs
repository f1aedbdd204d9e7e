use rholive::broker::{Broker, Event, InEvent, State, TurnInput, WsIn};
use rholive::latency::{latency_stats, TurnTracker};
use rholive::wire::WireMessage;
use std::collections::VecDeque;

fn names(msgs: &[WireMessage]) -> Vec<String> {
    msgs.iter()
        .map(|m| match m {
            WireMessage::ActivityStart => "start".to_string(),
            WireMessage::ActivityEnd => "end".to_string(),
            WireMessage::Audio(b) => format!("audio{:?}", b),
            WireMessage::Video(b) => format!("video{:?}", b),
            WireMessage::Setup(_) => "setup".to_string(),
        })
        .collect()
}

fn frame(tag: u8) -> Event {
    Event::Input(InEvent::UniqueFrame { jpeg: vec![tag], hash: tag as u64 })
}

#[test]
fn video_only_turn_after_quiet_spell() {
    let mut b = Broker::new(0);
    assert!(b.handle(frame(1), 2000).is_empty());
    assert_eq!(names(&b.handle(frame(2), 2500)), vec!["start", "video[1]", "video[2]", "end"]);
    assert_eq!(b.get_pending_turns_count(), 1);
    assert!(b.get_average_latency().is_none());
    assert!(b.handle(Event::Ws(WsIn::GenerationComplete), 3000).is_empty());
    assert_eq!(b.state(), State::Idle);
    assert_eq!(b.get_pending_turns_count(), 0);
    assert_eq!(b.get_average_latency(), Some(500));
}

#[test]
fn no_video_turn_right_after_speech() {
    let mut b = Broker::new(1000);
    b.handle(frame(1), 1200);
    assert!(b.handle(frame(2), 1500).is_empty());
}

#[test]
fn speech_turn_carries_recent_frames() {
    let mut b = Broker::new(10_000);
    b.handle(frame(1), 10_100);
    b.handle(frame(2), 10_600);
    let msgs = b.handle_speech_turn(
        TurnInput::SpeechTurn { pcm: vec![5, 6], t_start_ms: 10_500, draft_text: None },
        11_200,
    );
    assert_eq!(names(&msgs), vec!["start", "audio[5, 6]", "video[2]", "end"]);
    assert!(matches!(b.state(), State::CollectingSpeech { turn_id: 0, .. }));
    let again = b.handle_speech_turn(
        TurnInput::SpeechTurn { pcm: vec![1], t_start_ms: 0, draft_text: None },
        11_300,
    );
    assert!(again.is_empty());
}

#[test]
fn streaming_audio_turn() {
    let mut b = Broker::new(0);
    let m = b.handle_speech_turn(
        TurnInput::StreamingAudio { bytes: vec![1], is_start: true, is_end: false },
        50,
    );
    assert_eq!(names(&m), vec!["start", "audio[1]"]);
    let m = b.handle_speech_turn(
        TurnInput::StreamingAudio { bytes: vec![], is_start: false, is_end: true },
        60,
    );
    assert_eq!(names(&m), vec!["end"]);
    let mut idle = Broker::new(0);
    let m = idle.handle_speech_turn(
        TurnInput::StreamingAudio { bytes: vec![2], is_start: false, is_end: false },
        10,
    );
    assert!(m.is_empty());
}

#[test]
fn tracker_latencies() {
    let mut t = TurnTracker::new();
    assert_eq!(t.complete_turn(5), None);
    t.start_turn(7, 100);
    t.start_turn(8, 150);
    assert_eq!(t.pending_count(), 2);
    assert_eq!(t.complete_turn(400), Some((7, 300)));
    assert_eq!(t.complete_turn(450), Some((8, 300)));
    assert_eq!(t.average_latency(), Some(300));
    let s = latency_stats(&VecDeque::from(vec![10, 30, 20])).unwrap();
    assert_eq!((s.min_ms, s.max_ms, s.average_ms, s.count), (10, 30, 20, 3));
    assert!(latency_stats(&VecDeque::new()).is_none());
}
