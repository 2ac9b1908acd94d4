// The speech segmenter, driven chunk by chunk with explicit arrival times
// in milliseconds.  Samples are in thousandths of full scale, the gain in
// thousandths (1000 is unity).

use ndict::segmenter::{SpeechDetector, SpeechState};

#[test]
fn test_speech_detector_new() {
    let detector = SpeechDetector::new(20, 10, 1000, 1000);
    assert_eq!(detector.state, SpeechState::Idle);
    assert!(detector.speech_start_ms.is_none());
    assert!(detector.silence_start_ms.is_none());
    assert!(detector.speech_buffer.is_empty());
}

#[test]
fn test_idle_state_no_speech_below_threshold() {
    let mut detector = SpeechDetector::new(20, 10, 1000, 1000);

    let samples = vec![10, 10, 10];
    let result = detector.process_audio(&samples, 0);

    assert!(result.is_none());
    assert_eq!(detector.state, SpeechState::Idle);
    assert!(detector.speech_buffer.is_empty());
}

#[test]
fn test_idle_state_transition_to_speaking() {
    let mut detector = SpeechDetector::new(20, 10, 1000, 1000);

    let samples = vec![30, 30, 30];
    let result = detector.process_audio(&samples, 0);

    assert!(result.is_none());
    assert_eq!(detector.state, SpeechState::Speaking);
    assert!(!detector.speech_buffer.is_empty());
}

#[test]
fn test_speaking_state_accumulates_buffer() {
    let mut detector = SpeechDetector::new(20, 10, 1000, 1000);

    let samples1 = vec![30, 30];
    detector.process_audio(&samples1, 0);

    let samples2 = vec![40, 40];
    detector.process_audio(&samples2, 32);

    assert_eq!(detector.state, SpeechState::Speaking);
    assert_eq!(detector.speech_buffer.len(), 4);
}

#[test]
fn test_speaking_to_silence_detected_transition() {
    let mut detector = SpeechDetector::new(20, 10, 1000, 1000);

    let samples_speech = vec![30, 30];
    detector.process_audio(&samples_speech, 0);

    let samples_silence = vec![5, 5];
    let result = detector.process_audio(&samples_silence, 32);

    assert!(result.is_none());
    assert_eq!(detector.state, SpeechState::SilenceDetected);
    assert!(detector.silence_start_ms.is_some());
}

#[test]
fn test_silence_detected_to_speaking_false_alarm() {
    let mut detector = SpeechDetector::new(20, 10, 1000, 1000);

    detector.process_audio(&vec![30, 30], 0);
    detector.process_audio(&vec![5, 5], 32);
    let result = detector.process_audio(&vec![30, 30], 64);

    assert!(result.is_none());
    assert_eq!(detector.state, SpeechState::Speaking);
    assert!(detector.silence_start_ms.is_none());
}

#[test]
fn test_hysteresis_prevents_oscillation() {
    let mut detector = SpeechDetector::new(20, 10, 1000, 1000);

    detector.process_audio(&vec![30, 30], 0);
    assert_eq!(detector.state, SpeechState::Speaking);

    detector.process_audio(&vec![15, 15], 32);
    assert_eq!(detector.state, SpeechState::Speaking);

    detector.process_audio(&vec![5, 5], 64);
    assert_eq!(detector.state, SpeechState::SilenceDetected);
}

#[test]
fn test_empty_samples_does_not_crash() {
    let mut detector = SpeechDetector::new(20, 10, 1000, 1000);

    let result = detector.process_audio(&[], 0);
    assert!(result.is_none());
    assert_eq!(detector.state, SpeechState::Idle);
}

#[test]
fn test_duration_calculation() {
    let detector = SpeechDetector::new(20, 10, 100, 1000);

    let samples = vec![0i32; 1600];
    let calculated = detector.calculate_duration_ms(&samples);

    assert_eq!(calculated, 100);
}

#[test]
fn test_segment_round_trip_emits_once() {
    // Loud chunks, then silence held past the configured duration: exactly
    // one gain-scaled segment comes out and the machine is idle again.
    let mut detector = SpeechDetector::new(20, 10, 1000, 2000);

    assert!(detector.process_audio(&vec![30, 30], 0).is_none());
    assert!(detector.process_audio(&vec![40, 40], 32).is_none());
    assert!(detector.process_audio(&vec![0, 0], 64).is_none());
    assert!(detector.process_audio(&vec![0, 0], 500).is_none());
    let segment = detector.process_audio(&vec![0, 0], 1064);

    // Gain of 2000 doubles every sample; the silent confirmation tail is
    // part of the segment.
    assert_eq!(segment, Some(vec![60, 60, 80, 80, 0, 0, 0, 0, 0, 0]));
    assert_eq!(detector.state, SpeechState::Idle);
    assert!(detector.speech_buffer.is_empty());
    assert!(detector.silence_start_ms.is_none());

    // Nothing further comes out of continued silence.
    assert!(detector.process_audio(&vec![0, 0], 1100).is_none());
    assert_eq!(detector.state, SpeechState::Idle);
}

#[test]
fn test_false_alarm_emits_nothing() {
    // A silent gap shorter than the silence duration, then speech again:
    // no segment, and the buffer keeps all three chunks.
    let mut detector = SpeechDetector::new(20, 10, 1000, 1000);

    assert!(detector.process_audio(&vec![30, 30], 0).is_none());
    assert!(detector.process_audio(&vec![5, 5], 32).is_none());
    assert!(detector.process_audio(&vec![30, 30], 64).is_none());

    assert_eq!(detector.state, SpeechState::Speaking);
    assert_eq!(detector.speech_buffer, vec![30, 30, 5, 5, 30, 30]);
}
