use rholive::boundary::BoundaryState;
use rholive::clause::{extract_clause_boundary, AsrProposal, AsrToken};
use rholive::config::SegConfig;
use rholive::emitter::CloseReason;
use rholive::recorder::{RecorderAction, TurnRecorder};
use rholive::segmenter::{AudioSegmenter, FrameClassifier};
use rholive::wire::{Outgoing, WireMessage};

fn voiced_chunk() -> Vec<i16> {
    vec![1000i16; 320]
}

#[test]
fn segmenter_asr_close() {
    let config = SegConfig::default();
    let mut seg = AudioSegmenter::new(config);
    let mut now = 0u64;
    // 1.5 s of voice.
    for _ in 0..75 {
        assert!(seg.push_classified_chunk(&voiced_chunk(), true, now).is_none());
        now += 20;
    }
    assert!(matches!(seg.boundary_state(), BoundaryState::Recording { seg_start_idx: 0, .. }));
    seg.add_proposal(AsrProposal { clause_end_idx: 16000, text: "What is the status.".to_string() });
    let out = seg.push_classified_chunk(&voiced_chunk(), true, now);
    now += 20;
    let turn = out.expect("the clause closes the segment");
    assert_eq!(turn.id, 1);
    assert_eq!(turn.close_reason, CloseReason::AsrClause);
    assert_eq!(turn.text.as_deref(), Some("What is the status."));
    assert_eq!(turn.audio.len(), 16000);
    assert!(matches!(seg.boundary_state(), BoundaryState::Committing { seg_start_idx: 16000, .. }));
    // More voice reopens a segment with the short pre-roll.
    let start_idx = 76 * 320;
    seg.push_classified_chunk(&voiced_chunk(), true, now);
    match seg.boundary_state() {
        BoundaryState::Recording { seg_start_idx, .. } => assert_eq!(seg_start_idx, start_idx - 1600),
        s => panic!("unexpected state {:?}", s),
    }
    let msgs = seg.drain_outgoing();
    assert!(matches!(msgs.first(), Some(Outgoing::ActivityStart(1))));
    let ends: Vec<u64> = msgs
        .iter()
        .filter_map(|m| match m {
            Outgoing::ActivityEnd(t) => Some(*t),
            _ => None,
        })
        .collect();
    assert_eq!(ends, vec![1]);
    assert!(matches!(msgs.last(), Some(Outgoing::AudioChunk(_, 2))));
}

#[test]
fn segmenter_requests_transcription_of_open_segment() {
    let config = SegConfig::default();
    let mut seg = AudioSegmenter::new(config);
    let mut now = 0u64;
    for _ in 0..40 {
        seg.push_classified_chunk(&voiced_chunk(), true, now);
        now += 20;
    }
    let reqs = seg.drain_asr_requests();
    assert_eq!(reqs.len(), 1);
    assert_eq!(reqs[0].id, 1);
    assert_eq!(reqs[0].global_range.start, 0);
    assert_eq!(reqs[0].audio.len(), reqs[0].global_range.end);
}

#[test]
fn segmenter_ignores_wrong_frame_size() {
    let mut seg = AudioSegmenter::new(SegConfig::default());
    assert!(seg.push_chunk(&[0i16; 100], 0).is_none());
    assert!(seg.drain_outgoing().is_empty());
}

#[test]
fn segmenter_silence_close_after_speech() {
    let mut config = SegConfig::default();
    config.asr_timeout_ms = 0;
    let mut seg = AudioSegmenter::new(config);
    let mut now = 0u64;
    let mut turns = Vec::new();
    for i in 0..60 {
        let voiced = i < 20;
        if let Some(t) = seg.push_classified_chunk(&voiced_chunk(), voiced, now) {
            turns.push(t);
        }
        now += 20;
    }
    assert_eq!(turns.len(), 1);
    assert_eq!(turns[0].close_reason, CloseReason::Silence);
    assert_eq!(turns[0].id, 1);
}

#[test]
fn classifier_rejects_wrong_size() {
    let mut c = FrameClassifier::new();
    assert_eq!(c.classify_frame(&[0i16; 319], 0, 0).unwrap_err().got, 319);
    let meta = c.classify_frame(&[0i16; 320], 640, 7).unwrap();
    assert_eq!(meta.start_idx, 640);
    assert_eq!(meta.timestamp_ms, 7);
    assert!(!meta.voiced);
}

fn tok(text: &str, t1: i64) -> AsrToken {
    AsrToken { text: text.to_string(), t1 }
}

#[test]
fn clause_boundary_from_tokens() {
    let tokens = vec![
        tok("[_BEG_]", 0),
        tok(" What", 20),
        tok(" is", 40),
        tok(" the", 60),
        tok(" status.", 90),
        tok(" And", 120),
    ];
    let p = extract_clause_boundary(" What is the status. And", &tokens, 1000..30000, 10).unwrap();
    assert_eq!(p.clause_end_idx, 1000 + 90 * 160);
    assert_eq!(p.text, "What is the status.");
    assert!(extract_clause_boundary("   ", &tokens, 1000..30000, 10).is_none());
    assert!(extract_clause_boundary("x", &tokens, 1000..2000, 10).is_none());
    let short = extract_clause_boundary("x", &tokens, 0..100000, 4).unwrap();
    assert_eq!(short.clause_end_idx, 90 * 160);
}

#[test]
fn recorder_keeps_audio_dir_open_until_wire_end() {
    let mut rec = TurnRecorder::new(true);
    let a = rec.on_outgoing(&Outgoing::ActivityStart(3));
    assert!(matches!(a[0], RecorderAction::CreateTurnDir { turn_id: 3, video_only: false }));
    assert!(matches!(a[1], RecorderAction::OpenAudio));
    let a = rec.on_outgoing(&Outgoing::AudioChunk(vec![1, 2], 3));
    assert!(matches!(&a[..], [RecorderAction::WriteAudio(b)] if b == &vec![1u8, 2]));
    let a = rec.on_outgoing(&Outgoing::ActivityEnd(3));
    assert!(matches!(&a[..], [RecorderAction::CloseAudio]));
    let a = rec.on_ws(&WireMessage::Video(vec![9]));
    assert!(matches!(&a[..], [RecorderAction::WriteFrame(b)] if b == &vec![9u8]));
    let a = rec.on_ws(&WireMessage::ActivityEnd);
    assert!(matches!(&a[..], [RecorderAction::CloseDir]));
    let a = rec.on_ws(&WireMessage::ActivityStart);
    assert!(matches!(&a[..], [RecorderAction::CreateTurnDir { turn_id: 1000, video_only: true }]));
    let mut off = TurnRecorder::new(false);
    assert!(off.on_ws(&WireMessage::ActivityStart).is_empty());
}
