// The control-channel wire encoding: canonical JSON, with a decoder that
// accepts exactly the encoder's output.

use ndict::ipc::{
    decode_command, decode_response, encode_command, encode_response, encode_status, Command,
    Response, StatusInfo,
};

#[test]
fn test_command_serialization_start() {
    let cmd = Command::Start;
    let json = encode_command(&cmd);
    assert_eq!(json, r#""Start""#);
}

#[test]
fn test_command_serialization_set_language() {
    let cmd = Command::SetLanguage("en".to_string());
    let json = encode_command(&cmd);
    assert_eq!(json, r#"{"SetLanguage":"en"}"#);
}

#[test]
fn test_command_round_trip_all_variants() {
    let commands = vec![
        Command::Start,
        Command::Stop,
        Command::Pause,
        Command::Resume,
        Command::Status,
        Command::SetLanguage("test".to_string()),
        Command::Toggle,
    ];
    for cmd in commands {
        let json = encode_command(&cmd);
        let deserialized = decode_command(&json).unwrap();
        assert_eq!(cmd, deserialized);
    }
}

#[test]
fn test_response_serialization_ok() {
    let resp = Response::Okay;
    let json = encode_response(&resp);
    assert_eq!(json, r#""Ok""#);
}

#[test]
fn test_response_serialization_error() {
    let resp = Response::Error("test error".to_string());
    let json = encode_response(&resp);
    assert_eq!(json, r#"{"Error":"test error"}"#);
}

#[test]
fn test_response_serialization_status() {
    let info = StatusInfo {
        is_running: true,
        is_active: false,
        language: "en".to_string(),
    };
    let resp = Response::Status(info.clone());
    let json = encode_response(&resp);
    assert_eq!(
        json,
        r#"{"Status":{"is_running":true,"is_active":false,"language":"en"}}"#
    );
}

#[test]
fn test_response_round_trip_all_variants() {
    let responses = vec![
        Response::Okay,
        Response::Error("error".to_string()),
        Response::Status(StatusInfo {
            is_running: true,
            is_active: false,
            language: "test".to_string(),
        }),
    ];
    for resp in responses {
        let json = encode_response(&resp);
        let deserialized = decode_response(&json).unwrap();
        assert_eq!(resp, deserialized);
    }
}

#[test]
fn test_status_info_serialization() {
    let info = StatusInfo {
        is_running: true,
        is_active: true,
        language: "en".to_string(),
    };
    let json = encode_status(&info);
    assert!(json.contains("is_running"));
    assert!(json.contains("is_active"));
    assert!(json.contains("language"));
}

#[test]
fn test_status_info_all_states() {
    let combinations = vec![
        (true, true, "en"),
        (true, false, "en"),
        (false, true, "es"),
        (false, false, "fr"),
    ];
    for (running, active, lang) in combinations {
        let info = StatusInfo {
            is_running: running,
            is_active: active,
            language: lang.to_string(),
        };
        let resp = Response::Status(info.clone());
        let json = encode_response(&resp);
        let deserialized = decode_response(&json).unwrap();
        assert_eq!(resp, deserialized);
    }
}

#[test]
fn test_string_escaping_round_trip() {
    // Quotes, backslashes and control characters survive the wire intact.
    let tricky = "a \"quoted\" back\\slash\nline\ttab\u{1}bel";
    let cmd = Command::SetLanguage(tricky.to_string());
    let json = encode_command(&cmd);
    assert_eq!(decode_command(&json), Some(cmd));
}

#[test]
fn test_decode_rejects_garbage() {
    assert_eq!(decode_command("nonsense"), None);
    assert_eq!(decode_command(""), None);
    assert_eq!(decode_command("\"Start"), None);
    assert_eq!(decode_command("{\"SetLanguage\":\"en\""), None);
    assert_eq!(decode_response("{\"Error\":}"), None);
    assert_eq!(decode_response("{\"Status\":{}}"), None);
}
