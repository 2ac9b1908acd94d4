// The daemon lifecycle state machine and command dispatch.

use ndict::config::Config;
use ndict::daemon::{DaemonError, DaemonState};
use ndict::ipc::{Command, Response};
use ndict::rate_limit::CommandRateLimiter;
use ndict::server::{
    commit_start, execute_command, handle_pause, handle_resume, handle_set_language, handle_stop,
    plan_start, validate_language, CommandOutcome,
};

fn fresh_state() -> DaemonState {
    DaemonState::new(Config::default())
}

fn limiter_from(config: &Config) -> CommandRateLimiter {
    CommandRateLimiter::new(
        config.rate_limit.commands_per_second,
        config.rate_limit.burst_capacity,
        config.rate_limit.enabled,
    )
}

#[test]
fn test_daemon_state_new() {
    let config = Config::default();
    let state = DaemonState::new(config.clone());

    assert_eq!(state.config, config);
    assert!(!state.is_active);
    assert!(!state.is_processing);
    assert!(!state.has_audio_capture);
    assert!(!state.has_audio_rx);
    assert!(!state.whisper_loaded);
    assert!(!state.has_keyboard);
    assert!(!state.has_vad_task);
    assert_eq!(state.language, "en");
}

#[test]
fn test_activate() {
    let mut state = fresh_state();

    assert!(!state.is_active);

    state.activate().unwrap();

    assert!(state.is_active);
}

#[test]
fn test_deactivate() {
    let mut state = fresh_state();

    state.activate().unwrap();
    assert!(state.is_active);

    state.deactivate().unwrap();

    assert!(!state.is_active);
}

#[test]
fn test_get_status() {
    let config = Config::default();
    let state = DaemonState::new(config.clone());

    let status = state.get_status();

    assert_eq!(status.is_running, true);
    assert_eq!(status.is_active, false);
    assert_eq!(status.language, config.whisper.language);
}

#[test]
fn test_get_status_active() {
    let config = Config::default();
    let mut state = DaemonState::new(config.clone());

    state.activate().unwrap();

    let status = state.get_status();

    assert_eq!(status.is_running, true);
    assert_eq!(status.is_active, true);
    assert_eq!(status.language, config.whisper.language);
}

#[test]
fn test_stop_vad_processing() {
    let mut state = fresh_state();

    state.attach_audio();
    state.start_vad_processing().unwrap();
    assert!(state.has_vad_task);

    state.stop_vad_processing();

    assert!(!state.has_vad_task);
    assert!(!state.is_processing);
}

#[test]
fn test_stop_vad_processing_no_task() {
    let mut state = fresh_state();

    assert!(!state.has_vad_task);

    state.stop_vad_processing();

    assert!(!state.has_vad_task);
}

#[test]
fn test_start_vad_processing_requires_receiver() {
    let mut state = fresh_state();
    let result = state.start_vad_processing();
    assert_eq!(result, Err(DaemonError::AudioReceiverUnavailable));
}

#[test]
fn test_start_vad_processing_already_processing() {
    let mut state = fresh_state();
    state.attach_audio();
    state.start_vad_processing().unwrap();
    let result = state.start_vad_processing();
    assert_eq!(result, Err(DaemonError::AlreadyProcessing));
}

#[test]
fn test_execute_command_pause() {
    let config = Config::default();
    let mut state = DaemonState::new(config.clone());
    let mut limiter = limiter_from(&config);

    // Pause when not active should fail
    let result = execute_command(&mut state, &mut limiter, &Command::Pause, 0);
    assert!(result.is_err());
    assert!(result.unwrap_err().message().contains("Already paused"));

    // Activate first
    state.activate().unwrap();

    // Now pause should succeed
    let result = execute_command(&mut state, &mut limiter, &Command::Pause, 0);
    assert!(matches!(result, Ok(CommandOutcome::Reply(Response::Okay))));

    // Verify it's no longer active
    let status = state.get_status();
    assert!(!status.is_active);
}

#[test]
fn test_execute_command_resume() {
    let config = Config::default();
    let mut state = DaemonState::new(config.clone());
    let mut limiter = limiter_from(&config);

    // Resume when already active should fail
    state.activate().unwrap();
    let result = execute_command(&mut state, &mut limiter, &Command::Resume, 0);
    assert!(result.is_err());
    assert!(result.unwrap_err().message().contains("Already active"));

    // Deactivate
    state.deactivate().unwrap();

    // Resume without audio capture should fail
    let result = execute_command(&mut state, &mut limiter, &Command::Resume, 0);
    assert!(result.is_err());
    assert!(result.unwrap_err().message().contains("audio capture not running"));
}

#[test]
fn test_execute_command_status() {
    let config = Config::default();
    let mut state = DaemonState::new(config.clone());
    let mut limiter = limiter_from(&config);

    let result = execute_command(&mut state, &mut limiter, &Command::Status, 0);

    if let Ok(CommandOutcome::Reply(Response::Status(info))) = result {
        assert_eq!(info.is_running, true);
        assert_eq!(info.is_active, false);
        assert_eq!(info.language, config.whisper.language);
    } else {
        panic!("Expected Status response");
    }
}

#[test]
fn test_execute_command_status_active() {
    let config = Config::default();
    let mut state = DaemonState::new(config.clone());
    let mut limiter = limiter_from(&config);

    state.activate().unwrap();

    let result = execute_command(&mut state, &mut limiter, &Command::Status, 0);

    if let Ok(CommandOutcome::Reply(Response::Status(info))) = result {
        assert_eq!(info.is_running, true);
        assert_eq!(info.is_active, true);
        assert_eq!(info.language, config.whisper.language);
    } else {
        panic!("Expected Status response");
    }
}

#[test]
fn test_execute_command_set_language() {
    let config = Config::default();
    let mut state = DaemonState::new(config);
    let mut limiter = CommandRateLimiter::new(10, 20, true);

    let result =
        execute_command(&mut state, &mut limiter, &Command::SetLanguage("es".to_string()), 0);
    assert!(matches!(result, Ok(CommandOutcome::Reply(Response::Okay))));

    // Verify language was set
    let status = state.get_status();
    assert_eq!(status.language, "es");
}

#[test]
fn test_execute_command_set_language_multiple() {
    let config = Config::default();
    let mut state = DaemonState::new(config);
    let mut limiter = CommandRateLimiter::new(10, 20, true);

    let languages = vec!["en", "es", "fr", "de", "jp", "zh"];
    for lang in languages {
        let result = execute_command(
            &mut state,
            &mut limiter,
            &Command::SetLanguage(lang.to_string()),
            0,
        );
        assert!(matches!(result, Ok(CommandOutcome::Reply(Response::Okay))));

        // Verify language was updated
        let status = state.get_status();
        assert_eq!(status.language, lang);
    }
}

#[test]
fn test_execute_command_set_language_invalid() {
    let config = Config::default();
    let mut state = DaemonState::new(config);
    let mut limiter = CommandRateLimiter::new(10, 20, true);

    // Too short
    let result =
        execute_command(&mut state, &mut limiter, &Command::SetLanguage("a".to_string()), 0);
    assert!(result.is_err());

    // Too long
    let result =
        execute_command(&mut state, &mut limiter, &Command::SetLanguage("abcd".to_string()), 0);
    assert!(result.is_err());

    // Uppercase
    let result =
        execute_command(&mut state, &mut limiter, &Command::SetLanguage("EN".to_string()), 0);
    assert!(result.is_err());

    // Invalid characters
    let result =
        execute_command(&mut state, &mut limiter, &Command::SetLanguage("e1".to_string()), 0);
    assert!(result.is_err());
}

#[test]
fn test_execute_command_toggle_inactive() {
    let config = Config::default();
    let mut state = DaemonState::new(config.clone());
    let mut limiter = limiter_from(&config);

    // Inactive: a toggle asks for the start path.
    let result = execute_command(&mut state, &mut limiter, &Command::Toggle, 0);
    assert!(matches!(result, Ok(CommandOutcome::StartRequested)));
}

#[test]
fn test_execute_command_toggle_active() {
    let config = Config::default();
    let mut state = DaemonState::new(config.clone());
    let mut limiter = limiter_from(&config);

    state.activate().unwrap();

    // Active: a toggle performs the stop path.
    let result = execute_command(&mut state, &mut limiter, &Command::Toggle, 0);
    assert!(matches!(result, Ok(CommandOutcome::Reply(Response::Okay))));
    assert!(!state.is_active);
}

#[test]
fn test_rate_limit_allows_normal_usage() {
    let mut config = Config::default();
    config.rate_limit.commands_per_second = 10;
    config.rate_limit.burst_capacity = 20;
    config.rate_limit.enabled = true;

    let mut state = DaemonState::new(config.clone());
    let mut limiter = limiter_from(&config);

    // Send 5 commands, all should be allowed
    for _ in 0..5 {
        let result = execute_command(&mut state, &mut limiter, &Command::Status, 0);
        assert!(matches!(result, Ok(CommandOutcome::Reply(Response::Status(_)))));
    }
}

#[test]
fn test_rate_limit_allows_burst() {
    let mut config = Config::default();
    config.rate_limit.commands_per_second = 10;
    config.rate_limit.burst_capacity = 5;
    config.rate_limit.enabled = true;

    let mut state = DaemonState::new(config.clone());
    let mut limiter = limiter_from(&config);

    // Send 5 commands in burst, all should be allowed
    for _ in 0..5 {
        let result = execute_command(&mut state, &mut limiter, &Command::Status, 0);
        assert!(
            matches!(result, Ok(CommandOutcome::Reply(Response::Status(_)))),
            "Burst capacity should allow 5 requests"
        );
    }

    // Next request should be rate limited
    let result = execute_command(&mut state, &mut limiter, &Command::Status, 0);
    assert!(
        matches!(result, Ok(CommandOutcome::Reply(Response::Error(_)))),
        "Should be rate limited after burst exhausted"
    );
}

#[test]
fn test_rate_limit_disabled() {
    let mut config = Config::default();
    config.rate_limit.commands_per_second = 1;
    config.rate_limit.burst_capacity = 1;
    config.rate_limit.enabled = false;

    let mut state = DaemonState::new(config.clone());
    let mut limiter = limiter_from(&config);

    // Even with very low limits, disabled rate limiting should allow all requests
    for _ in 0..50 {
        let result = execute_command(&mut state, &mut limiter, &Command::Status, 0);
        assert!(
            matches!(result, Ok(CommandOutcome::Reply(Response::Status(_)))),
            "Disabled rate limiting should allow all requests"
        );
    }
}

#[test]
fn test_rate_limit_returns_error_message() {
    let mut config = Config::default();
    config.rate_limit.commands_per_second = 10;
    config.rate_limit.burst_capacity = 2;
    config.rate_limit.enabled = true;

    let mut state = DaemonState::new(config.clone());
    let mut limiter = limiter_from(&config);

    // Exhaust burst capacity
    let _ = execute_command(&mut state, &mut limiter, &Command::Status, 0);
    let _ = execute_command(&mut state, &mut limiter, &Command::Status, 0);

    // Next request should be rate limited with error message
    let result = execute_command(&mut state, &mut limiter, &Command::Status, 0);

    if let Ok(CommandOutcome::Reply(Response::Error(msg))) = result {
        assert!(msg.contains("Rate limit exceeded"), "Error message should mention rate limiting");
        assert!(msg.contains("wait"), "Error message should mention waiting");
    } else {
        panic!("Expected Error response when rate limited, got {:?}", result);
    }
}

#[test]
fn test_rate_limit_affects_all_commands() {
    let mut config = Config::default();
    config.rate_limit.commands_per_second = 10;
    config.rate_limit.burst_capacity = 3;
    config.rate_limit.enabled = true;

    let mut state = DaemonState::new(config.clone());
    let mut limiter = limiter_from(&config);

    // Mix of commands should all be rate limited together
    let _ = execute_command(&mut state, &mut limiter, &Command::Status, 0);
    let _ = execute_command(&mut state, &mut limiter, &Command::Status, 0);
    let _ = execute_command(&mut state, &mut limiter, &Command::Status, 0);

    // All commands share the same rate limiter
    let result = execute_command(&mut state, &mut limiter, &Command::Status, 0);
    assert!(
        matches!(result, Ok(CommandOutcome::Reply(Response::Error(_)))),
        "All commands should be rate limited together"
    );

    let result =
        execute_command(&mut state, &mut limiter, &Command::SetLanguage("es".to_string()), 0);
    assert!(
        matches!(result, Ok(CommandOutcome::Reply(Response::Error(_)))),
        "SetLanguage should also be rate limited"
    );
}

#[test]
fn test_stop_twice_is_idempotent() {
    // Two stops in a row both succeed and leave identical state.
    let mut state = fresh_state();
    state.attach_audio();
    state.start_vad_processing().unwrap();
    state.activate().unwrap();

    let first = handle_stop(&mut state);
    assert_eq!(first, Ok(Response::Okay));
    let snapshot = (
        state.is_active,
        state.is_processing,
        state.has_audio_capture,
        state.has_audio_rx,
        state.whisper_loaded,
        state.streaming_loaded,
        state.has_keyboard,
        state.has_vad_task,
        state.has_streaming_task,
        state.language.clone(),
    );

    let second = handle_stop(&mut state);
    assert_eq!(second, Ok(Response::Okay));
    let again = (
        state.is_active,
        state.is_processing,
        state.has_audio_capture,
        state.has_audio_rx,
        state.whisper_loaded,
        state.streaming_loaded,
        state.has_keyboard,
        state.has_vad_task,
        state.has_streaming_task,
        state.language.clone(),
    );

    assert_eq!(snapshot, again);
}

#[test]
fn test_stop_keeps_batch_engine_warm() {
    let mut state = fresh_state();
    state.mark_whisper_loaded();
    state.attach_audio();
    state.start_vad_processing().unwrap();
    state.activate().unwrap();

    handle_stop(&mut state).unwrap();

    assert!(state.whisper_loaded);
    assert!(!state.has_audio_capture);
    assert!(!state.is_active);
}

#[test]
fn test_pause_before_start_fails() {
    let mut state = fresh_state();
    let result = handle_pause(&mut state);
    assert_eq!(result, Err(DaemonError::AlreadyPaused));
    assert!(result.unwrap_err().message().contains("Already paused"));
}

#[test]
fn test_resume_without_capture_fails() {
    let mut state = fresh_state();
    let result = handle_resume(&mut state);
    assert_eq!(result, Err(DaemonError::NoAudioCapture));
    assert!(result.unwrap_err().message().contains("audio capture not running"));
}

#[test]
fn test_pause_then_resume_round_trip() {
    let mut state = fresh_state();
    state.attach_audio();
    state.start_vad_processing().unwrap();
    state.activate().unwrap();

    assert_eq!(handle_pause(&mut state), Ok(Response::Okay));
    assert!(!state.is_active);
    assert!(state.has_audio_capture, "pause keeps audio capture running");

    // Resume subscribes a fresh receiver from the kept capture by itself.
    assert_eq!(handle_resume(&mut state), Ok(Response::Okay));
    assert!(state.is_active);
    assert!(state.is_processing);
}

#[test]
fn test_stop_keeps_streaming_engine_warm() {
    let mut config = Config::default();
    config.whisper.streaming_mode = true;
    let mut state = DaemonState::new(config);
    state.mark_streaming_loaded();
    state.attach_audio();
    state.start_streaming_processing().unwrap();
    state.activate().unwrap();

    handle_stop(&mut state).unwrap();

    assert!(state.streaming_loaded, "stop keeps the loaded streaming engine");
    assert!(!state.is_processing);
    assert!(!state.has_audio_capture);

    handle_pause(&mut state).unwrap_err();
    assert!(state.streaming_loaded);
}

#[test]
fn test_pause_keeps_streaming_engine_warm() {
    let mut config = Config::default();
    config.whisper.streaming_mode = true;
    let mut state = DaemonState::new(config);
    state.mark_streaming_loaded();
    state.attach_audio();
    state.start_streaming_processing().unwrap();
    state.activate().unwrap();

    assert_eq!(handle_pause(&mut state), Ok(Response::Okay));
    assert!(state.streaming_loaded, "pause keeps the loaded streaming engine");

    // A warm resume restarts the streaming task without a reload.
    assert_eq!(handle_resume(&mut state), Ok(Response::Okay));
    assert!(state.has_streaming_task);
}

#[test]
fn test_start_after_pause_subscribes_fresh_receiver() {
    // After a pause, the receiver went to the torn-down task; a new start
    // subscribes a fresh one from the capture that is still running.
    let mut state = fresh_state();
    state.mark_whisper_loaded();
    state.mark_keyboard_ready();
    state.attach_audio();
    commit_start(&mut state).unwrap();
    handle_pause(&mut state).unwrap();
    assert!(!state.has_audio_rx);
    assert!(state.has_audio_capture);

    let result = commit_start(&mut state);
    assert_eq!(result, Ok(Response::Okay));
    assert!(state.is_active);
    assert!(state.is_processing);
}

#[test]
fn test_validate_language_cases() {
    assert!(validate_language("en").is_ok());
    assert!(validate_language("eng").is_ok());
    assert_eq!(
        validate_language("ES"),
        Err(DaemonError::LanguageChars("ES".to_string()))
    );
    assert_eq!(
        validate_language("e"),
        Err(DaemonError::LanguageLength("e".to_string()))
    );
    assert_eq!(
        validate_language("abcd"),
        Err(DaemonError::LanguageLength("abcd".to_string()))
    );

    let mut state = fresh_state();
    assert_eq!(handle_set_language(&mut state, "eng"), Ok(Response::Okay));
    assert_eq!(state.get_status().language, "eng");
}

#[test]
fn test_start_plan_and_commit() {
    let mut state = fresh_state();

    let plan = plan_start(&state).unwrap();
    assert!(!plan.use_streaming);
    assert!(plan.need_engine);
    assert!(plan.need_keyboard);

    state.mark_whisper_loaded();
    state.mark_keyboard_ready();
    state.attach_audio();

    let result = commit_start(&mut state);
    assert_eq!(result, Ok(Response::Okay));
    assert!(state.is_active);
    assert!(state.is_processing);
    assert!(state.has_vad_task);

    // A second start is refused while processing.
    assert_eq!(plan_start(&state), Err(DaemonError::AlreadyProcessing));
}

#[test]
fn test_error_messages() {
    assert_eq!(DaemonError::AlreadyProcessing.message(), "Already processing audio");
    assert_eq!(DaemonError::AudioReceiverUnavailable.message(), "Audio receiver not available");
    assert_eq!(DaemonError::AlreadyActive.message(), "Already active, cannot resume");
    assert_eq!(
        DaemonError::NoAudioCapture.message(),
        "Cannot resume: audio capture not running. Use Start instead."
    );
    assert_eq!(
        DaemonError::LanguageLength("abcd".to_string()).message(),
        "Invalid language code: 'abcd'. Expected 2-3 letter ISO 639-1 code (e.g., 'en', 'es', 'fr')"
    );
    assert_eq!(
        DaemonError::LanguageChars("EN".to_string()).message(),
        "Invalid language code: 'EN'. Must be lowercase ASCII letters only"
    );
}
