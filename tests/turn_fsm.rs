use rholive::turn::{Event, SimpleTurnFsm, TurnState};
use rholive::wire::{ActivityMode, WireMessage};

fn kinds(msgs: &[WireMessage]) -> Vec<String> {
    msgs.iter()
        .map(|m| match m {
            WireMessage::ActivityStart => "start".to_string(),
            WireMessage::ActivityEnd => "end".to_string(),
            WireMessage::Audio(b) => format!("audio{:?}", b),
            WireMessage::Video(b) => format!("video{:?}", b),
            WireMessage::Setup(ActivityMode::StartOfActivityInterrupts) => "setup-interrupt".to_string(),
            WireMessage::Setup(ActivityMode::NoInterruption) => "setup-restore".to_string(),
        })
        .collect()
}

fn frame(tag: u8, hash: u64) -> Event {
    Event::Frame { jpeg: vec![tag], hash }
}

#[test]
fn silent_start_single_unique_frame() {
    let mut fsm = SimpleTurnFsm::new(1, 50);
    fsm.on_event(frame(1, 1), 0);
    assert_eq!(kinds(&fsm.drain_messages()), vec!["start", "video[1]", "end"]);
    assert_eq!(fsm.state(), TurnState::Idle);
}

#[test]
fn batched_video_idle() {
    let mut fsm = SimpleTurnFsm::new(3, 50);
    fsm.on_event(frame(1, 1), 0);
    fsm.on_event(frame(1, 1), 10);
    fsm.on_event(frame(2, 2), 20);
    assert!(fsm.drain_messages().is_empty());
    fsm.on_event(frame(3, 3), 30);
    assert_eq!(
        kinds(&fsm.drain_messages()),
        vec!["start", "video[1]", "video[2]", "video[3]", "end"]
    );
    assert_eq!(fsm.state(), TurnState::Idle);
}

#[test]
fn speech_turn_with_piggyback() {
    let mut fsm = SimpleTurnFsm::new(2, 50);
    fsm.on_event(Event::SpeechStart, 0);
    fsm.on_event(Event::AudioChunk(vec![0xA]), 5);
    fsm.on_event(frame(5, 5), 10);
    fsm.on_event(Event::AudioChunk(vec![0xB]), 15);
    fsm.on_event(Event::SpeechEnd, 20);
    assert_eq!(
        kinds(&fsm.drain_messages()),
        vec!["start", "audio[10]", "video[5]", "audio[11]"]
    );
    assert_eq!(fsm.drain_capture_requests(), 1);
    assert_eq!(fsm.state(), TurnState::WaitingForForcedFrame);
    fsm.on_event(frame(6, 6), 40);
    assert_eq!(kinds(&fsm.drain_messages()), vec!["video[6]", "end"]);
    assert_eq!(fsm.drain_capture_requests(), 0);
    assert_eq!(fsm.state(), TurnState::Idle);
}

#[test]
fn forced_frame_timeout() {
    let mut fsm = SimpleTurnFsm::new(1, 50);
    fsm.on_event(frame(5, 5), 0);
    fsm.on_event(Event::ResponseReceived, 100);
    fsm.drain_messages();
    fsm.on_event(Event::SpeechStart, 200);
    fsm.on_event(Event::AudioChunk(vec![0xA]), 210);
    fsm.on_event(Event::SpeechEnd, 220);
    fsm.check_force_frame_timeout(260);
    assert_eq!(fsm.state(), TurnState::WaitingForForcedFrame);
    fsm.check_force_frame_timeout(271);
    assert_eq!(fsm.state(), TurnState::Idle);
    assert_eq!(
        kinds(&fsm.drain_messages()),
        vec!["start", "audio[10]", "video[5]", "end"]
    );
}

#[test]
fn speech_preempts_video_turn() {
    let mut fsm = SimpleTurnFsm::new(1, 50);
    fsm.on_event(frame(1, 1), 0);
    assert_eq!(kinds(&fsm.drain_messages()), vec!["start", "video[1]", "end"]);
    fsm.on_event(Event::SpeechStart, 10);
    assert_eq!(kinds(&fsm.drain_messages()), vec!["setup-interrupt", "start"]);
    fsm.on_event(Event::AudioChunk(vec![7]), 20);
    fsm.on_event(Event::SpeechEnd, 30);
    fsm.on_event(frame(2, 2), 40);
    assert_eq!(
        kinds(&fsm.drain_messages()),
        vec!["audio[7]", "video[2]", "setup-restore", "end"]
    );
}

#[test]
fn duplicate_frames_and_stray_events_are_ignored() {
    let mut fsm = SimpleTurnFsm::new(1, 50);
    fsm.on_event(Event::AudioChunk(vec![1]), 0);
    fsm.on_event(Event::SpeechEnd, 1);
    fsm.on_event(frame(0, 0), 2);
    assert!(fsm.drain_messages().is_empty());
    assert_eq!(fsm.drain_capture_requests(), 0);
    assert_eq!(fsm.state(), TurnState::Idle);
}

#[test]
fn speech_start_while_waiting_closes_with_cached_frame() {
    let mut fsm = SimpleTurnFsm::new(2, 50);
    fsm.on_event(Event::SpeechStart, 0);
    fsm.on_event(frame(4, 4), 5);
    fsm.on_event(Event::SpeechEnd, 10);
    fsm.on_event(Event::SpeechStart, 20);
    assert_eq!(
        kinds(&fsm.drain_messages()),
        vec!["start", "video[4]", "video[4]", "end", "start"]
    );
    assert_eq!(fsm.state(), TurnState::AudioTurn);
}

#[test]
fn partial_batch_flushed_before_speech() {
    let mut fsm = SimpleTurnFsm::new(3, 50);
    fsm.on_event(frame(1, 1), 0);
    fsm.on_event(Event::SpeechStart, 10);
    assert_eq!(
        kinds(&fsm.drain_messages()),
        vec!["start", "video[1]", "end", "setup-interrupt", "start"]
    );
}

#[test]
fn responses_pop_pending_turns() {
    let mut fsm = SimpleTurnFsm::new(1, 50);
    fsm.on_event(frame(1, 1), 0);
    fsm.on_event(frame(2, 2), 10);
    assert_eq!(fsm.pending_turns_count(), 2);
    fsm.on_event(Event::ResponseReceived, 100);
    assert_eq!(fsm.pending_turns_count(), 1);
    fsm.on_event(Event::ResponseReceived, 200);
    fsm.on_event(Event::ResponseReceived, 300);
    assert_eq!(fsm.pending_turns_count(), 0);
}

#[test]
fn duplicate_frame_refreshes_cached_bytes() {
    let mut fsm = SimpleTurnFsm::new(2, 50);
    fsm.on_event(Event::SpeechStart, 0);
    fsm.on_event(frame(5, 5), 5);
    fsm.on_event(Event::Frame { jpeg: vec![6], hash: 5 }, 10);
    fsm.on_event(Event::SpeechEnd, 20);
    fsm.check_force_frame_timeout(71);
    assert_eq!(kinds(&fsm.drain_messages()), vec!["start", "video[5]", "video[6]", "end"]);
}
