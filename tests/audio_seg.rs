use rholive::boundary::{BoundaryEvent, BoundaryFSM, BoundaryState, FrameMeta};
use rholive::clause::{is_valid_clause_relaxed, is_valid_clause_simple};
use rholive::config::SegConfig;
use rholive::emitter::{CloseReason, SegmentEmitter};
use rholive::ring::AudioRingBuffer;
use std::time::{Duration, Instant};

#[test]
fn test_ring_buffer_basic() {
    let mut ring = AudioRingBuffer::new(1000);

    let samples1 = vec![1, 2, 3, 4, 5];
    let idx1 = ring.push_frame(&samples1);
    assert_eq!(idx1, 0);

    let samples2 = vec![6, 7, 8, 9, 10];
    let idx2 = ring.push_frame(&samples2);
    assert_eq!(idx2, 5);

    let range1 = ring.get_range(0..5).unwrap();
    assert_eq!(range1, samples1);

    let range2 = ring.get_range(5..10).unwrap();
    assert_eq!(range2, samples2);

    let combined = ring.get_range(0..10).unwrap();
    assert_eq!(combined, [samples1, samples2].concat());
}

#[test]
fn test_ring_buffer_wraparound() {
    let mut ring = AudioRingBuffer::new(10);

    let samples1 = vec![1, 2, 3, 4, 5, 6, 7, 8];
    let idx1 = ring.push_frame(&samples1);
    assert_eq!(idx1, 0);

    let samples2 = vec![9, 10, 11, 12, 13];
    let idx2 = ring.push_frame(&samples2);
    assert_eq!(idx2, 8);

    let recent = ring.get_range(8..13).unwrap();
    assert_eq!(recent, samples2);

    assert!(ring.get_range(0..5).is_none());
}

#[test]
fn test_clause_validation() {
    assert!(is_valid_clause_simple("This is a sentence.", 4));
    assert!(is_valid_clause_simple("Is this a question?", 4));
    assert!(is_valid_clause_simple("This has enough tokens to pass", 4));
    assert!(!is_valid_clause_simple("Too short", 4));
    // Commas and trailing conjunctions count only under the relaxed rule.
    assert!(is_valid_clause_relaxed("I think,", 4));
    assert!(is_valid_clause_relaxed("Going home and", 4));
    assert!(!is_valid_clause_simple("I think,", 4));
    assert!(!is_valid_clause_simple("Going home and", 4));
}

#[test]
fn test_config_defaults() {
    let config = SegConfig::default();

    assert!(config.open_voiced_frames >= 3);
    assert!(config.close_silence_ms >= 200);
    assert!(config.max_turn_ms <= 10000);
    assert!(config.asr_poll_ms <= 500);
    assert!(config.ring_capacity >= 160000);
}

#[test]
fn test_boundary_fsm_state_transitions() {
    let config = SegConfig::default();
    let mut fsm = BoundaryFSM::new(config);

    assert_eq!(*fsm.get_state(), BoundaryState::Idle);

    for i in 0..10usize {
        let frame = FrameMeta { timestamp_ms: (i as u64) * 20, start_idx: i * 320, voiced: true };
        fsm.process_frame(&frame, (i + 1) * 320);
    }

    assert!(matches!(*fsm.get_state(), BoundaryState::Recording { .. }));
}

#[test]
fn test_latency_budget_ring_buffer() {
    let mut ring = AudioRingBuffer::new(320_000);
    let frame_size = 1600;

    let start = Instant::now();

    for i in 0..10 {
        let samples = vec![i as i16; frame_size];
        ring.push_frame(&samples);

        let elapsed = start.elapsed();
        assert!(elapsed < Duration::from_millis(1));
    }

    let get_start = Instant::now();
    let _data = ring.get_range(0..16000);
    let get_elapsed = get_start.elapsed();
    assert!(get_elapsed < Duration::from_millis(10));
}

#[test]
fn test_segment_emitter_ordering() {
    let mut config = SegConfig::default();
    config.asr_timeout_ms = 0;
    let mut ring = AudioRingBuffer::new(10000);

    let audio1 = vec![1i16; 1600];
    let audio2 = vec![2i16; 1600];
    ring.push_frame(&audio1);
    ring.push_frame(&audio2);
    let mut emitter = SegmentEmitter::new(config, ring);

    emitter.process_boundary_event(BoundaryEvent::SilenceClose(1600, 3200), 2, 0);
    emitter.process_boundary_event(BoundaryEvent::SilenceClose(0, 1600), 1, 0);

    let seg1 = emitter.pop_segment(0);
    assert!(seg1.is_some(), "Expected segment 1 but got None");
    let seg1 = seg1.unwrap();
    assert_eq!(seg1.audio.len(), 1600);

    let seg2 = emitter.pop_segment(0);
    assert!(seg2.is_some());
    let seg2 = seg2.unwrap();
    assert_eq!(seg2.audio.len(), 1600);

    assert!(emitter.pop_segment(0).is_none());
}

#[test]
fn ring_reads_back_every_write_in_window() {
    let mut ring = AudioRingBuffer::new(7);
    let mut all: Vec<i16> = Vec::new();
    for k in 0..5i16 {
        let chunk: Vec<i16> = (0..3).map(|j| k * 10 + j).collect();
        ring.push_frame(&chunk);
        all.extend_from_slice(&chunk);
    }
    let cur = ring.current_global_idx();
    assert_eq!(cur, 15);
    for a in 8..=cur {
        for b in a..=cur {
            assert_eq!(ring.get_range(a..b).unwrap(), all[a..b].to_vec());
        }
    }
}

#[test]
fn ring_refuses_ranges_outside_window() {
    let mut ring = AudioRingBuffer::new(4);
    ring.push_frame(&[1, 2, 3, 4, 5, 6]);
    assert!(ring.get_range(1..3).is_none());
    assert!(ring.get_range(2..7).is_none());
    assert_eq!(ring.get_range(2..6).unwrap(), vec![3, 4, 5, 6]);
    assert_eq!(ring.get_range(5..3).unwrap(), Vec::<i16>::new());
}

#[test]
fn clause_rules_edge_cases() {
    assert!(!is_valid_clause_simple("", 4));
    assert!(!is_valid_clause_simple("   \t\n ", 0));
    assert!(is_valid_clause_simple("  Stop!  ", 4));
    assert!(is_valid_clause_simple("one two three four", 4));
    assert!(!is_valid_clause_simple("one  two   three", 4));
    assert!(is_valid_clause_simple("wait;", 10));
    assert!(is_valid_clause_relaxed("I left because it rained", 10));
    assert!(is_valid_clause_relaxed("maybe -", 10));
    assert!(is_valid_clause_relaxed("yes but", 10));
    assert!(!is_valid_clause_relaxed("butter", 10));
}

#[test]
fn boundary_closes_on_silence_once() {
    let config = SegConfig::default();
    let mut fsm = BoundaryFSM::new(config);
    let mut events = 0;
    let mut last = None;
    for i in 0..60usize {
        let voiced = i < 10;
        let frame = FrameMeta { timestamp_ms: (i as u64) * 20, start_idx: i * 320, voiced };
        if let Some(e) = fsm.process_frame(&frame, (i + 1) * 320) {
            events += 1;
            last = Some(e);
        }
    }
    assert_eq!(events, 1);
    let (id, ev) = last.unwrap();
    assert_eq!(id, 1);
    assert!(matches!(ev, BoundaryEvent::SilenceClose(0, _)));
    assert_eq!(fsm.next_segment_id(), 2);
}

#[test]
fn boundary_max_length_beats_silence() {
    let mut config = SegConfig::default();
    config.max_turn_ms = 100;
    let mut fsm = BoundaryFSM::new(config);
    let mut got = None;
    for i in 0..20usize {
        let frame = FrameMeta { timestamp_ms: (i as u64) * 20, start_idx: i * 320, voiced: i < 6 };
        if let Some(e) = fsm.process_frame(&frame, (i + 1) * 320) {
            got = Some(e);
            break;
        }
    }
    let (_, ev) = got.unwrap();
    assert!(matches!(ev, BoundaryEvent::MaxLenClose(_, _)));
}

#[test]
fn emitter_waits_for_transcript_until_timeout() {
    let mut config = SegConfig::default();
    config.asr_timeout_ms = 100;
    let mut ring = AudioRingBuffer::new(1000);
    ring.push_frame(&vec![3i16; 10]);
    let mut emitter = SegmentEmitter::new(config, ring);
    emitter.process_boundary_event(BoundaryEvent::SilenceClose(0, 10), 1, 1000);
    assert!(emitter.pop_segment(1050).is_none());
    emitter.add_transcript(1, "hello".to_string(), 1060);
    let seg = emitter.pop_segment(1060).unwrap();
    assert_eq!(seg.id, 1);
    assert_eq!(seg.text.as_deref(), Some("hello"));
    assert_eq!(seg.close_reason, CloseReason::Silence);
}

#[test]
fn emitter_skips_unavailable_range_without_gap() {
    let mut config = SegConfig::default();
    config.asr_timeout_ms = 0;
    let mut ring = AudioRingBuffer::new(4);
    ring.push_frame(&[1, 2, 3, 4, 5, 6, 7, 8]);
    let mut emitter = SegmentEmitter::new(config, ring);
    emitter.process_boundary_event(BoundaryEvent::MaxLenClose(0, 4), 1, 0);
    emitter.process_boundary_event(BoundaryEvent::AsrClose(4, 8, "ok.".to_string()), 2, 0);
    let seg = emitter.pop_segment(0).unwrap();
    assert_eq!(seg.id, 2);
    assert_eq!(seg.audio, vec![5, 6, 7, 8]);
    assert_eq!(seg.close_reason, CloseReason::AsrClause);
    assert_eq!(emitter.next_emit_id(), 3);
    assert!(emitter.pop_segment(0).is_none());
}
