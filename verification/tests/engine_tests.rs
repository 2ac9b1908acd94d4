// The recognition-engine models: construction, padding, strategy parsing,
// and the streaming window bookkeeping.

use ndict::asset::{candidate_model_paths, model_filename_from_url, pick_first_existing};
use ndict::engine::{SamplingKind, StreamingEngine, StreamingWrapper, WhisperEngine};

#[test]
fn test_find_model_path_existing() {
    let url = "https://huggingface.co/ggerganov/whisper.cpp/resolve/main/ggml-base.bin";
    let filename = model_filename_from_url(url);

    assert!(filename.contains("ggml-base.bin"));
    assert!(filename.ends_with(".bin"));
}

#[test]
fn test_find_model_path_fallback() {
    let url = "https://example.com/models/ggml-nonexistent.bin";
    let filename = model_filename_from_url(url);
    let paths = candidate_model_paths(Some("/home/user"), &filename);

    // Nothing exists: the caller falls back to the user-local target.
    let found = pick_first_existing(&paths, &vec![false; paths.len()]);
    assert!(found.is_none());
    assert!(paths[0].contains("ggml-nonexistent.bin"));
    assert!(paths[0].contains(".local/share/ndict"));
}

#[test]
fn test_find_model_path_from_different_url() {
    let url = "https://custom-host.com/path/to/ggml-tiny.en.bin";
    let filename = model_filename_from_url(url);

    assert!(filename.contains("ggml-tiny.en.bin"));
    assert!(filename.ends_with(".bin"));
}

#[test]
fn test_pick_first_existing_order() {
    let paths = candidate_model_paths(Some("/home/user"), "m.bin");
    assert_eq!(paths.len(), 4);
    assert_eq!(paths[1], "/usr/share/whisper/m.bin");
    assert_eq!(paths[2], "./models/m.bin");
    assert_eq!(paths[3], "m.bin");

    let found = pick_first_existing(&paths, &vec![false, true, false, true]);
    assert_eq!(found, Some(1));
}

#[test]
fn test_pad_audio_no_padding_needed() {
    let engine = WhisperEngine::new(
        "https://example.com/model.bin".to_string(),
        "cpu".to_string(),
    );

    let audio = vec![0i32; 20000];
    let padded = engine.pad_audio(&audio, 16000);

    assert_eq!(padded.len(), 20000);
}

#[test]
fn test_pad_audio_with_padding() {
    let engine = WhisperEngine::new(
        "https://example.com/model.bin".to_string(),
        "cpu".to_string(),
    );

    let audio = vec![0i32; 10000];
    let padded = engine.pad_audio(&audio, 16000);

    assert_eq!(padded.len(), 16000);
    assert_eq!(padded[..10000], audio);
    assert_eq!(padded[10000..], vec![0i32; 6000]);
}

#[test]
fn test_pad_audio_exact_length() {
    let engine = WhisperEngine::new(
        "https://example.com/model.bin".to_string(),
        "cpu".to_string(),
    );

    let audio = vec![0i32; 16000];
    let padded = engine.pad_audio(&audio, 16000);

    assert_eq!(padded.len(), 16000);
    assert_eq!(padded, audio);
}

#[test]
fn test_pad_audio_empty() {
    let engine = WhisperEngine::new(
        "https://example.com/model.bin".to_string(),
        "cpu".to_string(),
    );

    let audio = vec![];
    let padded = engine.pad_audio(&audio, 16000);

    assert_eq!(padded.len(), 16000);
    assert!(padded.iter().all(|&x| x == 0));
}

#[test]
fn test_new_whisper_engine() {
    let engine = WhisperEngine::new(
        "https://huggingface.co/model.bin".to_string(),
        "cpu".to_string(),
    );

    assert!(engine.model_url.contains("huggingface.co"));
    assert_eq!(engine.backend, "cpu");
    assert_eq!(engine.model_loaded, false);
}

#[test]
fn test_new_whisper_engine_custom_url() {
    let custom_url = "http://custom.com/model.bin".to_string();
    let engine = WhisperEngine::new(custom_url.clone(), "gpu".to_string());

    assert_eq!(engine.model_url, custom_url);
    assert_eq!(engine.backend, "gpu");
}

#[test]
fn test_new_whisper_engine_with_checksum() {
    let custom_url = "http://custom.com/model.bin".to_string();
    let checksum = Some("abc123def456".to_string());
    let engine =
        WhisperEngine::new_with_checksum(custom_url.clone(), "gpu".to_string(), checksum.clone());

    assert_eq!(engine.model_url, custom_url);
    assert_eq!(engine.backend, "gpu");
    assert_eq!(engine.model_checksum, checksum);
}

#[test]
fn test_parse_sampling_strategy() {
    let greedy = WhisperEngine::new_with_checksum_and_params(
        "u".to_string(),
        "cpu".to_string(),
        None,
        18000,
        "greedy".to_string(),
    );
    assert_eq!(greedy.parse_sampling_strategy(), SamplingKind::Greedy);

    let beam = WhisperEngine::new_with_checksum_and_params(
        "u".to_string(),
        "cpu".to_string(),
        None,
        18000,
        "Beam".to_string(),
    );
    assert_eq!(beam.parse_sampling_strategy(), SamplingKind::BeamSearch);

    let unknown = WhisperEngine::new_with_checksum_and_params(
        "u".to_string(),
        "cpu".to_string(),
        None,
        18000,
        "mystery".to_string(),
    );
    assert_eq!(unknown.parse_sampling_strategy(), SamplingKind::Greedy);
}

#[test]
fn test_wants_gpu() {
    let cpu = WhisperEngine::new("u".to_string(), "cpu".to_string());
    assert!(!cpu.wants_gpu());
    let gpu = WhisperEngine::new("u".to_string(), "GPU".to_string());
    assert!(gpu.wants_gpu());
    let cuda = WhisperEngine::new("u".to_string(), "cuda".to_string());
    assert!(cuda.wants_gpu());
    let other = WhisperEngine::new("u".to_string(), "tpu".to_string());
    assert!(!other.wants_gpu());
}

#[test]
fn test_prepare_transcription_requires_model() {
    let mut engine = WhisperEngine::new("u".to_string(), "cpu".to_string());
    assert!(engine.prepare_transcription(&vec![1, 2, 3]).is_err());

    engine.mark_model_loaded();
    let padded = engine.prepare_transcription(&vec![1, 2, 3]).unwrap();
    assert_eq!(padded.len(), 18000);
    assert_eq!(&padded[..3], &[1, 2, 3]);
}

#[test]
fn test_streaming_engine_new() {
    let engine = StreamingEngine::new("en".to_string(), 3000, 10000, 500, 16000);

    assert_eq!(engine.length_samples, 160000);
    assert_eq!(engine.keep_samples, 8000);
    assert!(!engine.is_running);
}

#[test]
fn test_streaming_engine_custom_params() {
    let engine = StreamingEngine::new("es".to_string(), 1500, 5000, 500, 16000);

    assert_eq!(engine.length_samples, 80000);
    assert_eq!(engine.keep_samples, 8000);
}

#[test]
fn test_streaming_engine_not_running() {
    let mut engine = StreamingEngine::new("en".to_string(), 3000, 10000, 200, 16000);

    let result = engine.send_audio(&vec![0i32; 512]);
    assert!(result.is_none());
}

#[test]
fn test_streaming_engine_set_language() {
    let mut engine = StreamingEngine::new("en".to_string(), 3000, 10000, 200, 16000);

    assert_eq!(engine.language, "en");

    engine.set_language("es".to_string());
    assert_eq!(engine.language, "es");

    engine.set_language("fr".to_string());
    assert_eq!(engine.language, "fr");
}

#[test]
fn test_streaming_engine_window_and_tail() {
    // A tiny window: 4 samples long, keep 2 for context.
    let mut engine = StreamingEngine::new("en".to_string(), 1000, 4000, 2000, 1);
    assert_eq!(engine.length_samples, 4);
    assert_eq!(engine.keep_samples, 2);

    engine.mark_model_loaded();
    engine.start().unwrap();

    assert!(engine.send_audio(&vec![1, 2]).is_none());
    let window = engine.send_audio(&vec![3, 4]).unwrap();
    assert_eq!(window, vec![1, 2, 3, 4]);
    assert_eq!(engine.buffer, vec![3, 4]);
}

#[test]
fn test_streaming_engine_suppresses_duplicates() {
    let mut engine = StreamingEngine::new("en".to_string(), 1000, 4000, 2000, 1);
    engine.mark_model_loaded();
    engine.start().unwrap();

    assert_eq!(engine.accept_transcription(" hello "), Some("hello".to_string()));
    assert_eq!(engine.accept_transcription("hello"), None);
    assert_eq!(engine.accept_transcription(""), None);
    assert_eq!(engine.accept_transcription("world"), Some("world".to_string()));
}

#[test]
fn test_streaming_engine_start_requires_model() {
    let mut engine = StreamingEngine::new("en".to_string(), 3000, 10000, 500, 16000);
    let result = engine.start();
    assert!(result.is_err());
    assert_eq!(result.unwrap_err().message(), "Model not loaded");
}

#[test]
fn test_streaming_wrapper_new() {
    let wrapper = StreamingWrapper::new(16000);

    assert_eq!(wrapper.window_samples, 48000);
    assert_eq!(wrapper.overlap_samples, 8000);
    assert!(!wrapper.is_active);
    assert!(wrapper.buffer.is_empty());
    assert!(wrapper.accumulated_text.is_empty());
}

#[test]
fn test_streaming_wrapper_activate() {
    let mut wrapper = StreamingWrapper::new(16000);

    wrapper.activate();

    assert!(wrapper.is_active);
    assert!(wrapper.buffer.is_empty());
    assert!(wrapper.accumulated_text.is_empty());
}

#[test]
fn test_streaming_wrapper_deactivate() {
    let mut wrapper = StreamingWrapper::new(16000);

    wrapper.activate();
    wrapper.deactivate();

    assert!(!wrapper.is_active);
    assert!(wrapper.buffer.is_empty());
}

#[test]
fn test_streaming_wrapper_process_not_active() {
    let mut wrapper = StreamingWrapper::new(16000);

    let result = wrapper.process_chunk(&vec![0i32; 512]);

    assert!(result.is_none());
}

#[test]
fn test_streaming_wrapper_not_enough_audio() {
    let mut wrapper = StreamingWrapper::new(16000);
    wrapper.activate();

    let chunk = vec![0i32; 100];
    let result = wrapper.process_chunk(&chunk);

    assert!(result.is_none());
    assert_eq!(wrapper.buffer.len(), 100);
}

#[test]
fn test_streaming_wrapper_finalize() {
    let mut wrapper = StreamingWrapper::new(1);
    wrapper.activate();
    assert!(wrapper.process_chunk(&vec![7, 8]).is_none());

    let window = wrapper.take_final_window().unwrap();
    assert_eq!(window, vec![7, 8]);

    let out = wrapper.finish(Some("last words"));
    assert_eq!(out, Some("last words".to_string()));
    assert!(!wrapper.is_active);
    assert!(wrapper.buffer.is_empty());

    // Inactive finalize yields nothing.
    assert!(wrapper.take_final_window().is_none());
}
