// The text-to-input-event mapping for the virtual keyboard.

use ndict::keyboard::{
    char_to_events, digit_to_keycode, letter_to_keycode, text_to_events, KeyboardError,
};

#[test]
fn test_letter_to_keycode_values() {
    assert_eq!(letter_to_keycode('a'), 30);
    assert_eq!(letter_to_keycode('q'), 16);
    assert_eq!(letter_to_keycode('z'), 44);
    assert_eq!(letter_to_keycode('m'), 50);
}

#[test]
fn test_digit_to_keycode_values() {
    assert_eq!(digit_to_keycode('0'), 11);
    assert_eq!(digit_to_keycode('1'), 2);
    assert_eq!(digit_to_keycode('9'), 10);
}

#[test]
fn test_char_to_events_lowercase() {
    let events = char_to_events('a').unwrap();
    assert_eq!(events, vec![(1, 30, 1), (1, 30, 0)]);
}

#[test]
fn test_char_to_events_uppercase_wraps_shift() {
    let events = char_to_events('A').unwrap();
    assert_eq!(events, vec![(1, 42, 1), (1, 30, 1), (1, 30, 0), (1, 42, 0)]);
}

#[test]
fn test_char_to_events_punctuation() {
    assert_eq!(char_to_events(' ').unwrap(), vec![(1, 57, 1), (1, 57, 0)]);
    assert_eq!(char_to_events('.').unwrap(), vec![(1, 52, 1), (1, 52, 0)]);
    assert_eq!(
        char_to_events('!').unwrap(),
        vec![(1, 42, 1), (1, 2, 1), (1, 2, 0), (1, 42, 0)]
    );
    assert_eq!(
        char_to_events('?').unwrap(),
        vec![(1, 42, 1), (1, 53, 1), (1, 53, 0), (1, 42, 0)]
    );
    assert_eq!(char_to_events('\n').unwrap(), vec![(1, 28, 1), (1, 28, 0)]);
    assert_eq!(char_to_events('\'').unwrap(), vec![(1, 40, 1), (1, 40, 0)]);
}

#[test]
fn test_char_to_events_unsupported() {
    let err = char_to_events('€').unwrap_err();
    assert_eq!(err, KeyboardError::UnsupportedChar('€'));
    assert_eq!(err.message(), "Character '€' not supported yet");
}

#[test]
fn test_text_to_events_skips_unsupported() {
    let events = text_to_events("a€b");
    assert_eq!(events, vec![(1, 30, 1), (1, 30, 0), (1, 48, 1), (1, 48, 0)]);
}

#[test]
fn test_text_to_events_word() {
    let events = text_to_events("Hi");
    assert_eq!(
        events,
        vec![(1, 42, 1), (1, 35, 1), (1, 35, 0), (1, 42, 0), (1, 23, 1), (1, 23, 0)]
    );
}
