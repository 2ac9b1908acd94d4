// Voice-activity detector: levels are root-mean-square values in
// thousandths of full scale, thresholds likewise (20 = 0.02).

use ndict::vad::VoiceActivityDetector;

#[test]
fn test_vad_new() {
    let vad = VoiceActivityDetector::new(20, 10);
    assert_eq!(vad.threshold_start, 20);
    assert_eq!(vad.threshold_stop, 10);
}

#[test]
fn test_vad_new_with_equal_thresholds() {
    let vad = VoiceActivityDetector::new(20, 20);
    assert_eq!(vad.threshold_start, 20);
    assert_eq!(vad.threshold_stop, 20);
}

#[test]
fn test_calculate_audio_level_empty() {
    let vad = VoiceActivityDetector::new(20, 10);
    let level = vad.calculate_audio_level(&[]);
    assert_eq!(level, 0);
}

#[test]
fn test_calculate_audio_level_silence() {
    let vad = VoiceActivityDetector::new(20, 10);
    let samples = vec![0, 0, 0, 0];
    let level = vad.calculate_audio_level(&samples);
    assert_eq!(level, 0);
}

#[test]
fn test_calculate_audio_level_full_scale() {
    let vad = VoiceActivityDetector::new(20, 10);
    let samples = vec![1000, 1000, 1000, 1000];
    let level = vad.calculate_audio_level(&samples);
    assert_eq!(level, 1000);
}

#[test]
fn test_calculate_audio_level_mixed() {
    let vad = VoiceActivityDetector::new(20, 10);
    let samples = vec![0, 500, 1000, 500];
    let level = vad.calculate_audio_level(&samples);
    // RMS of (0, 0.5, 1.0, 0.5) is about 0.612 of full scale.
    assert_eq!(level, 612);
}

#[test]
fn test_calculate_audio_level_negative_values() {
    let vad = VoiceActivityDetector::new(20, 10);
    let samples = vec![-500, -500, -500, -500];
    let level = vad.calculate_audio_level(&samples);
    assert_eq!(level, 500);
}

#[test]
fn test_calculate_audio_level_mixed_sign() {
    let vad = VoiceActivityDetector::new(20, 10);
    let samples = vec![-1000, 0, 1000, 0];
    let level = vad.calculate_audio_level(&samples);
    // RMS of (-1, 0, 1, 0) is about 0.707 of full scale.
    assert_eq!(level, 707);
}

#[test]
fn test_detect_speech_idle_above_threshold_start() {
    let vad = VoiceActivityDetector::new(20, 10);
    let is_speaking = false;
    let result = vad.detect(30, is_speaking);
    assert!(result.is_speech);
    assert_eq!(result.probability, 30);
}

#[test]
fn test_detect_speech_idle_below_threshold_start() {
    let vad = VoiceActivityDetector::new(20, 10);
    let is_speaking = false;
    let result = vad.detect(15, is_speaking);
    assert!(!result.is_speech);
    assert_eq!(result.probability, 15);
}

#[test]
fn test_detect_speech_idle_exactly_threshold_start() {
    let vad = VoiceActivityDetector::new(20, 10);
    let is_speaking = false;
    let result = vad.detect(20, is_speaking);
    assert!(result.is_speech);
}

#[test]
fn test_detect_speech_speaking_above_threshold_stop() {
    let vad = VoiceActivityDetector::new(20, 10);
    let is_speaking = true;
    let result = vad.detect(15, is_speaking);
    assert!(result.is_speech);
}

#[test]
fn test_detect_speech_speaking_below_threshold_stop() {
    let vad = VoiceActivityDetector::new(20, 10);
    let is_speaking = true;
    let result = vad.detect(5, is_speaking);
    assert!(!result.is_speech);
}

#[test]
fn test_detect_speech_speaking_exactly_threshold_stop() {
    let vad = VoiceActivityDetector::new(20, 10);
    let is_speaking = true;
    let result = vad.detect(10, is_speaking);
    assert!(result.is_speech);
}

#[test]
fn test_detect_hysteresis() {
    let vad = VoiceActivityDetector::new(20, 10);
    let audio_level = 15;

    let result_idle = vad.detect(audio_level, false);
    assert!(!result_idle.is_speech);

    let result_speaking = vad.detect(audio_level, true);
    assert!(result_speaking.is_speech);
}

#[test]
fn test_vad_result_contains_probability() {
    let vad = VoiceActivityDetector::new(20, 10);
    let result = vad.detect(50, false);
    assert_eq!(result.probability, 50);
}

#[test]
fn test_detect_with_zero_audio_level() {
    let vad = VoiceActivityDetector::new(20, 10);
    let result = vad.detect(0, false);
    assert!(!result.is_speech);
    assert_eq!(result.probability, 0);
}

#[test]
fn test_level_sign_flip_invariance() {
    // The level depends only on magnitudes: flipping signs changes nothing.
    let vad = VoiceActivityDetector::new(20, 10);
    let a = vec![3, -7, 20, 0, -500];
    let b = vec![-3, 7, -20, 0, 500];
    assert_eq!(vad.calculate_audio_level(&a), vad.calculate_audio_level(&b));
}
