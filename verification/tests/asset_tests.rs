// The model-asset manager: checksums, payload verification, and the
// retry/backoff state machine.

use ndict::asset::{
    checksum_hex, plan_model_load, verify_transfer, AttemptOutcome, DownloadAction, DownloadError,
    DownloadTask, ModelFileAction, Sha256Stream,
};

#[test]
fn test_checksum_hex_known_values() {
    // Well-known SHA-256 digests, in lowercase hex.
    assert_eq!(
        checksum_hex(&Vec::new()),
        "e3b0c44298fc1c149afbf4c8996fb92427ae41e4649b934ca495991b7852b855"
    );
    assert_eq!(
        checksum_hex(&b"abc".to_vec()),
        "ba7816bf8f01cfea414140de5dae2223b00361a396177a9cb410ff61f20015ad"
    );
}

#[test]
fn test_checksum_hex_length() {
    assert_eq!(checksum_hex(&b"anything at all".to_vec()).len(), 64);
}

#[test]
fn test_checksum_stream_matches_whole_buffer() {
    // Feeding the bytes in pieces gives the same digest as one buffer.
    let mut stream = Sha256Stream::new();
    stream.update(b"a");
    stream.update(b"b");
    stream.update(b"c");
    assert_eq!(stream.finalize_hex(), checksum_hex(&b"abc".to_vec()));
}

#[test]
fn test_verify_transfer_accepts_good_payload() {
    let result = verify_transfer(
        4,
        Some(4),
        &"cafe".to_string(),
        &Some("cafe".to_string()),
    );
    assert_eq!(result, Ok(()));
}

#[test]
fn test_verify_transfer_without_expectations() {
    let result = verify_transfer(4, None, &"cafe".to_string(), &None);
    assert_eq!(result, Ok(()));
}

#[test]
fn test_verify_transfer_size_mismatch() {
    let result = verify_transfer(3, Some(4), &"cafe".to_string(), &None);
    assert_eq!(result, Err(DownloadError::SizeMismatch { expected: 4, actual: 3 }));
}

#[test]
fn test_verify_transfer_checksum_mismatch() {
    let result = verify_transfer(
        4,
        Some(4),
        &"beef".to_string(),
        &Some("cafe".to_string()),
    );
    assert_eq!(
        result,
        Err(DownloadError::ChecksumMismatch {
            expected: "cafe".to_string(),
            actual: "beef".to_string()
        })
    );
}

#[test]
fn test_download_commits_only_verified_payload() {
    let mut task = DownloadTask::new(Some("cafe".to_string()));

    task.begin_attempt();
    let action = task.process_attempt(AttemptOutcome::Transferred {
        size: 10,
        expected_size: Some(10),
        checksum_hex: "cafe".to_string(),
    });

    assert_eq!(action, DownloadAction::Commit);
    assert!(task.committed);
    assert!(!task.temp_file_present);
}

#[test]
fn test_download_checksum_mismatch_discards_temp() {
    // The mismatched bytes never reach the final path: the action is a
    // retry, never a commit, and the temporary file is written off.
    let mut task = DownloadTask::new(Some("cafe".to_string()));

    task.begin_attempt();
    let action = task.process_attempt(AttemptOutcome::Transferred {
        size: 10,
        expected_size: Some(10),
        checksum_hex: "beef".to_string(),
    });

    assert_eq!(action, DownloadAction::Retry { delay_ms: 2000 });
    assert!(!task.committed);
    assert!(!task.temp_file_present);
}

#[test]
fn test_download_three_failures_surface_last_error() {
    // A forced three-failure sequence exhausts the attempts, surfaces the
    // last error, and leaves no temporary file behind.
    let mut task = DownloadTask::new(None);

    task.begin_attempt();
    let first = task.process_attempt(AttemptOutcome::TransferFailed("reset".to_string()));
    assert_eq!(first, DownloadAction::Retry { delay_ms: 2000 });
    assert!(!task.temp_file_present);

    task.begin_attempt();
    let second = task.process_attempt(AttemptOutcome::TransferFailed("reset again".to_string()));
    assert_eq!(second, DownloadAction::Retry { delay_ms: 4000 });
    assert!(!task.temp_file_present);

    task.begin_attempt();
    let third = task.process_attempt(AttemptOutcome::TransferFailed("gone".to_string()));
    assert_eq!(third, DownloadAction::Abort(DownloadError::Network("gone".to_string())));
    assert!(!task.temp_file_present);
    assert!(!task.committed);
    assert_eq!(task.attempts_used, 3);
}

#[test]
fn test_download_abort_carries_last_verification_error() {
    // The last attempt transfers but its digest disagrees: the surfaced
    // error is that exact checksum mismatch.
    let mut task = DownloadTask::new(Some("cafe".to_string()));

    task.begin_attempt();
    task.process_attempt(AttemptOutcome::TransferFailed("reset".to_string()));
    task.begin_attempt();
    task.process_attempt(AttemptOutcome::TransferFailed("reset".to_string()));

    task.begin_attempt();
    let third = task.process_attempt(AttemptOutcome::Transferred {
        size: 9,
        expected_size: Some(9),
        checksum_hex: "beef".to_string(),
    });
    assert_eq!(
        third,
        DownloadAction::Abort(DownloadError::ChecksumMismatch {
            expected: "cafe".to_string(),
            actual: "beef".to_string()
        })
    );
    assert!(!task.temp_file_present);
}

#[test]
fn test_plan_model_load() {
    assert_eq!(plan_model_load(false, None), ModelFileAction::Download);
    assert_eq!(plan_model_load(true, None), ModelFileAction::UseExisting);
    assert_eq!(plan_model_load(true, Some(true)), ModelFileAction::UseExisting);
    assert_eq!(plan_model_load(true, Some(false)), ModelFileAction::Download);
}

#[test]
fn test_verify_transfer_checks_size_first() {
    // Both the size and the checksum disagree: the size error comes back.
    let result = verify_transfer(
        3,
        Some(4),
        &"beef".to_string(),
        &Some("cafe".to_string()),
    );
    assert_eq!(result, Err(DownloadError::SizeMismatch { expected: 4, actual: 3 }));
}

#[test]
fn test_download_retry_then_success() {
    let mut task = DownloadTask::new(Some("cafe".to_string()));

    task.begin_attempt();
    let first = task.process_attempt(AttemptOutcome::TransferFailed("timeout".to_string()));
    assert_eq!(first, DownloadAction::Retry { delay_ms: 2000 });

    task.begin_attempt();
    let second = task.process_attempt(AttemptOutcome::Transferred {
        size: 7,
        expected_size: None,
        checksum_hex: "cafe".to_string(),
    });
    assert_eq!(second, DownloadAction::Commit);
    assert!(task.committed);
}
