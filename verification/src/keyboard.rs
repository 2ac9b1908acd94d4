//! Translation of text into virtual-keyboard input events.
//!
//! Each event is an `(event type, key code, value)` triple as the Linux
//! input subsystem takes them: type `EV_KEY`, the key's code, and `1` for a
//! press or `0` for a release.  The surrounding process feeds the triples to
//! the virtual input device; characters with no mapping are skipped, as a
//! dictation stream must not stall on one odd symbol.

use crate::chars::str_to_chars;
use vstd::prelude::*;
use vstd::string::StringExecFns;

verus! {

/// The Linux input event type for key presses and releases.
pub const EV_KEY: u16 = 1;

pub const KEY_LEFTSHIFT: u16 = 42;

pub const KEY_ENTER: u16 = 28;

pub const KEY_SPACE: u16 = 57;

pub const KEY_DOT: u16 = 52;

pub const KEY_COMMA: u16 = 51;

pub const KEY_SLASH: u16 = 53;

pub const KEY_APOSTROPHE: u16 = 40;

pub const KEY_EXCLAIM_DIGIT: u16 = 2;

/// The key code for a lowercase letter, given its character code
/// (the QWERTY rows of the Linux key map).
pub open spec fn letter_code_key(n: int) -> u16 {
    if n == 'q' as int {
        16
    } else if n == 'w' as int {
        17
    } else if n == 'e' as int {
        18
    } else if n == 'r' as int {
        19
    } else if n == 't' as int {
        20
    } else if n == 'y' as int {
        21
    } else if n == 'u' as int {
        22
    } else if n == 'i' as int {
        23
    } else if n == 'o' as int {
        24
    } else if n == 'p' as int {
        25
    } else if n == 'a' as int {
        30
    } else if n == 's' as int {
        31
    } else if n == 'd' as int {
        32
    } else if n == 'f' as int {
        33
    } else if n == 'g' as int {
        34
    } else if n == 'h' as int {
        35
    } else if n == 'j' as int {
        36
    } else if n == 'k' as int {
        37
    } else if n == 'l' as int {
        38
    } else if n == 'z' as int {
        44
    } else if n == 'x' as int {
        45
    } else if n == 'c' as int {
        46
    } else if n == 'v' as int {
        47
    } else if n == 'b' as int {
        48
    } else if n == 'n' as int {
        49
    } else {
        50
    }
}

/// The key code for a digit: `1` through `9` sit on codes 2 through 10,
/// `0` on code 11.
pub open spec fn digit_code_key(n: int) -> u16 {
    if n == '0' as int {
        11
    } else {
        (n - '1' as int + 2) as u16
    }
}

/// A press and release of one key.
pub open spec fn tap(key: u16) -> Seq<(u16, u16, i32)> {
    seq![(EV_KEY, key, 1i32), (EV_KEY, key, 0i32)]
}

/// A press and release of one key with shift held.
pub open spec fn shifted_tap(key: u16) -> Seq<(u16, u16, i32)> {
    seq![(EV_KEY, KEY_LEFTSHIFT, 1i32)] + tap(key) + seq![(EV_KEY, KEY_LEFTSHIFT, 0i32)]
}

/// The input events for one character, or nothing for a character with no
/// mapping.
pub open spec fn spec_char_events(c: char) -> Option<Seq<(u16, u16, i32)>> {
    if 'a' <= c && c <= 'z' {
        Some(tap(letter_code_key(c as int)))
    } else if 'A' <= c && c <= 'Z' {
        Some(shifted_tap(letter_code_key(c as int + 32)))
    } else if '0' <= c && c <= '9' {
        Some(tap(digit_code_key(c as int)))
    } else if c == ' ' {
        Some(tap(KEY_SPACE))
    } else if c == '.' {
        Some(tap(KEY_DOT))
    } else if c == ',' {
        Some(tap(KEY_COMMA))
    } else if c == '!' {
        Some(shifted_tap(KEY_EXCLAIM_DIGIT))
    } else if c == '?' {
        Some(shifted_tap(KEY_SLASH))
    } else if c == '\n' {
        Some(tap(KEY_ENTER))
    } else if c == '\'' {
        Some(tap(KEY_APOSTROPHE))
    } else {
        None
    }
}

/// The input events for a whole text, unsupported characters skipped.
pub open spec fn spec_text_events(s: Seq<char>) -> Seq<(u16, u16, i32)>
    decreases s.len(),
{
    if s.len() == 0 {
        Seq::empty()
    } else {
        match spec_char_events(s[0]) {
            Some(e) => e + spec_text_events(s.drop_first()),
            None => spec_text_events(s.drop_first()),
        }
    }
}

/// A character the keyboard map cannot type.
#[derive(Debug, Clone, PartialEq)]
pub enum KeyboardError {
    UnsupportedChar(char),
}

impl KeyboardError {
    /// The message reported for an unsupported character.
    pub fn message(&self) -> (r: String)
        ensures
            match self {
                KeyboardError::UnsupportedChar(c) => r@ == "Character '"@ + seq![*c]
                    + "' not supported yet"@,
            },
    {
        match self {
            KeyboardError::UnsupportedChar(c) => {
                let mut s = String::from_str("Character '");
                s.push(*c);
                s.append("' not supported yet");
                s
            },
        }
    }
}

/// The key code for a lowercase letter's character code.
fn keycode_for_letter_code(n: u32) -> (r: u16)
    requires
        'a' as u32 <= n <= 'z' as u32,
    ensures
        r == letter_code_key(n as int),
{
    if n == 'q' as u32 {
        16
    } else if n == 'w' as u32 {
        17
    } else if n == 'e' as u32 {
        18
    } else if n == 'r' as u32 {
        19
    } else if n == 't' as u32 {
        20
    } else if n == 'y' as u32 {
        21
    } else if n == 'u' as u32 {
        22
    } else if n == 'i' as u32 {
        23
    } else if n == 'o' as u32 {
        24
    } else if n == 'p' as u32 {
        25
    } else if n == 'a' as u32 {
        30
    } else if n == 's' as u32 {
        31
    } else if n == 'd' as u32 {
        32
    } else if n == 'f' as u32 {
        33
    } else if n == 'g' as u32 {
        34
    } else if n == 'h' as u32 {
        35
    } else if n == 'j' as u32 {
        36
    } else if n == 'k' as u32 {
        37
    } else if n == 'l' as u32 {
        38
    } else if n == 'z' as u32 {
        44
    } else if n == 'x' as u32 {
        45
    } else if n == 'c' as u32 {
        46
    } else if n == 'v' as u32 {
        47
    } else if n == 'b' as u32 {
        48
    } else if n == 'n' as u32 {
        49
    } else {
        50
    }
}

/// The key code for a lowercase letter.
pub fn letter_to_keycode(c: char) -> (r: u16)
    requires
        'a' <= c <= 'z',
    ensures
        r == letter_code_key(c as int),
{
    keycode_for_letter_code(c as u32)
}

/// The key code for a digit.
pub fn digit_to_keycode(c: char) -> (r: u16)
    requires
        '0' <= c <= '9',
    ensures
        r == digit_code_key(c as int),
{
    if c == '0' {
        11
    } else {
        (c as u32 - '1' as u32 + 2) as u16
    }
}

/// The input events that type one character; refused for characters with no
/// mapping.
pub fn char_to_events(c: char) -> (r: Result<Vec<(u16, u16, i32)>, KeyboardError>)
    ensures
        match (r, spec_char_events(c)) {
            (Ok(events), Some(e)) => events@ =~= e,
            (Err(KeyboardError::UnsupportedChar(bad)), None) => bad == c,
            _ => false,
        },
{
    let mut events: Vec<(u16, u16, i32)> = Vec::new();
    if c >= 'a' && c <= 'z' {
        let key = letter_to_keycode(c);
        events.push((EV_KEY, key, 1));
        events.push((EV_KEY, key, 0));
    } else if c >= 'A' && c <= 'Z' {
        let key = keycode_for_letter_code(c as u32 + 32);
        events.push((EV_KEY, KEY_LEFTSHIFT, 1));
        events.push((EV_KEY, key, 1));
        events.push((EV_KEY, key, 0));
        events.push((EV_KEY, KEY_LEFTSHIFT, 0));
    } else if c >= '0' && c <= '9' {
        let key = digit_to_keycode(c);
        events.push((EV_KEY, key, 1));
        events.push((EV_KEY, key, 0));
    } else if c == ' ' {
        events.push((EV_KEY, KEY_SPACE, 1));
        events.push((EV_KEY, KEY_SPACE, 0));
    } else if c == '.' {
        events.push((EV_KEY, KEY_DOT, 1));
        events.push((EV_KEY, KEY_DOT, 0));
    } else if c == ',' {
        events.push((EV_KEY, KEY_COMMA, 1));
        events.push((EV_KEY, KEY_COMMA, 0));
    } else if c == '!' {
        events.push((EV_KEY, KEY_LEFTSHIFT, 1));
        events.push((EV_KEY, KEY_EXCLAIM_DIGIT, 1));
        events.push((EV_KEY, KEY_EXCLAIM_DIGIT, 0));
        events.push((EV_KEY, KEY_LEFTSHIFT, 0));
    } else if c == '?' {
        events.push((EV_KEY, KEY_LEFTSHIFT, 1));
        events.push((EV_KEY, KEY_SLASH, 1));
        events.push((EV_KEY, KEY_SLASH, 0));
        events.push((EV_KEY, KEY_LEFTSHIFT, 0));
    } else if c == '\n' {
        events.push((EV_KEY, KEY_ENTER, 1));
        events.push((EV_KEY, KEY_ENTER, 0));
    } else if c == '\'' {
        events.push((EV_KEY, KEY_APOSTROPHE, 1));
        events.push((EV_KEY, KEY_APOSTROPHE, 0));
    } else {
        return Err(KeyboardError::UnsupportedChar(c));
    }
    Ok(events)
}

/// The input events that type a whole text, in order; characters without a
/// mapping are skipped.
pub fn text_to_events(text: &str) -> (r: Vec<(u16, u16, i32)>)
    ensures
        r@ =~= spec_text_events(text@),
{
    let v = str_to_chars(text);
    let n = v.len();
    let mut out: Vec<(u16, u16, i32)> = Vec::new();
    let mut i: usize = 0;
    proof {
        assert(v@.skip(0) =~= v@);
        assert(Seq::<(u16, u16, i32)>::empty() + spec_text_events(v@) =~= spec_text_events(v@));
    }
    while i < n
        invariant
            i <= n,
            n == v@.len(),
            spec_text_events(v@) =~= out@ + spec_text_events(v@.skip(i as int)),
        decreases n - i,
    {
        proof {
            assert(v@.skip(i as int)[0] == v@[i as int]);
            assert(v@.skip(i as int).drop_first() =~= v@.skip(i as int + 1));
        }
        match char_to_events(v[i]) {
            Ok(events) => {
                let ghost out_before = out@;
                let m = events.len();
                let mut j: usize = 0;
                proof {
                    assert(out_before + events@.subrange(0, 0) =~= out_before);
                }
                while j < m
                    invariant
                        j <= m,
                        m == events@.len(),
                        out@ =~= out_before + events@.subrange(0, j as int),
                    decreases m - j,
                {
                    out.push(events[j]);
                    proof {
                        assert(out_before + events@.subrange(0, j as int + 1) =~= (out_before
                            + events@.subrange(0, j as int)).push(events@[j as int]));
                    }
                    j = j + 1;
                }
                proof {
                    assert(events@.subrange(0, m as int) =~= events@);
                    assert(out@ =~= out_before + events@);
                    assert(out_before + (events@ + spec_text_events(v@.skip(i as int + 1))) =~= (
                    out_before + events@) + spec_text_events(v@.skip(i as int + 1)));
                }
            },
            Err(_) => {},
        }
        i = i + 1;
    }
    proof {
        assert(v@.skip(n as int) =~= Seq::<char>::empty());
        assert(out@ + Seq::<(u16, u16, i32)>::empty() =~= out@);
    }
    out
}

} // verus!
