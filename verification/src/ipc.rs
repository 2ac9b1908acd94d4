//! The control-channel vocabulary: commands a client may send, responses the
//! daemon gives back, and the status snapshot.

use crate::asset::hex_digit;
use crate::chars::{chars_to_string, str_eq, str_to_chars};
use vstd::prelude::*;

verus! {

/// A request from the command-line client to the daemon.
#[derive(Debug, Clone, PartialEq)]
pub enum Command {
    Start,
    Stop,
    Pause,
    Resume,
    Status,
    SetLanguage(String),
    Toggle,
}

/// The daemon's reply to a single command.  `Okay` is encoded as `"Ok"` on
/// the wire.
#[derive(Debug, Clone, PartialEq)]
pub enum Response {
    Okay,
    Error(String),
    Status(StatusInfo),
}

/// A point-in-time snapshot of the daemon: process liveness, pipeline
/// activity, and the transcription language.
#[derive(Debug, Clone, PartialEq)]
pub struct StatusInfo {
    pub is_running: bool,
    pub is_active: bool,
    pub language: String,
}

// --- The wire encoding -----------------------------------------------------
//
// Each request and each reply is one JSON value in its canonical spelling:
// a unit variant is the quoted variant name, a variant with a payload is a
// one-entry object, and strings escape the quote, the backslash and control
// characters exactly as the encoder below spells them.  The decoder accepts
// exactly the encoder's output, so a decoded value re-encodes to the very
// bytes that arrived.  Spellings a general JSON parser would also tolerate —
// extra whitespace, uppercase or four-digit hex escapes, reordered keys —
// are refused as malformed.

/// How one character is spelled inside a JSON string.
pub open spec fn json_escape_char(c: char) -> Seq<char> {
    if c == '"' {
        seq!['\\', '"']
    } else if c == '\\' {
        seq!['\\', '\\']
    } else if c == '\u{8}' {
        seq!['\\', 'b']
    } else if c == '\t' {
        seq!['\\', 't']
    } else if c == '\n' {
        seq!['\\', 'n']
    } else if c == '\u{c}' {
        seq!['\\', 'f']
    } else if c == '\r' {
        seq!['\\', 'r']
    } else if (c as u32) < 0x20 {
        seq!['\\', 'u', '0', '0', hex_digit(c as u32 as int / 16), hex_digit(c as u32 as int % 16)]
    } else {
        seq![c]
    }
}

/// A whole string escaped for a JSON string literal.
pub open spec fn json_escape(s: Seq<char>) -> Seq<char>
    decreases s.len(),
{
    if s.len() == 0 {
        Seq::empty()
    } else {
        json_escape_char(s[0]) + json_escape(s.drop_first())
    }
}

/// The canonical encoding of a command.
pub open spec fn spec_encode_command(c: Command) -> Seq<char> {
    match c {
        Command::Start => "\"Start\""@,
        Command::Stop => "\"Stop\""@,
        Command::Pause => "\"Pause\""@,
        Command::Resume => "\"Resume\""@,
        Command::Status => "\"Status\""@,
        Command::SetLanguage(l) => "{\"SetLanguage\":\""@ + json_escape(l@) + "\"}"@,
        Command::Toggle => "\"Toggle\""@,
    }
}

/// The canonical encoding of a status snapshot.
pub open spec fn spec_encode_status(st: StatusInfo) -> Seq<char> {
    "{\"is_running\":"@ + spec_bool(st.is_running) + ",\"is_active\":"@ + spec_bool(st.is_active)
        + ",\"language\":\""@ + json_escape(st.language@) + "\"}"@
}

/// The canonical encoding of a response.
pub open spec fn spec_encode_response(r: Response) -> Seq<char> {
    match r {
        Response::Okay => "\"Ok\""@,
        Response::Error(m) => "{\"Error\":\""@ + json_escape(m@) + "\"}"@,
        Response::Status(st) => "{\"Status\":"@ + spec_encode_status(st) + "}"@,
    }
}

pub open spec fn spec_bool(b: bool) -> Seq<char> {
    if b {
        "true"@
    } else {
        "false"@
    }
}

/// The lowercase hex digit for a character code's nibble.
fn hex_digit_char(n: u32) -> (r: char)
    requires
        n < 16,
    ensures
        r == hex_digit(n as int),
{
    if n == 0 {
        '0'
    } else if n == 1 {
        '1'
    } else if n == 2 {
        '2'
    } else if n == 3 {
        '3'
    } else if n == 4 {
        '4'
    } else if n == 5 {
        '5'
    } else if n == 6 {
        '6'
    } else if n == 7 {
        '7'
    } else if n == 8 {
        '8'
    } else if n == 9 {
        '9'
    } else if n == 10 {
        'a'
    } else if n == 11 {
        'b'
    } else if n == 12 {
        'c'
    } else if n == 13 {
        'd'
    } else if n == 14 {
        'e'
    } else {
        'f'
    }
}

proof fn lemma_json_escape_push(s: Seq<char>, c: char)
    ensures
        json_escape(s.push(c)) == json_escape(s) + json_escape_char(c),
    decreases s.len(),
{
    if s.len() == 0 {
        assert(s.push(c).drop_first() =~= s);
        assert(s.push(c)[0] == c);
        assert(json_escape(s.push(c)) == json_escape_char(c) + json_escape(s));
        assert(json_escape(s) == Seq::<char>::empty());
        assert(json_escape_char(c) + Seq::<char>::empty() =~= json_escape_char(c));
        assert(Seq::<char>::empty() + json_escape_char(c) =~= json_escape_char(c));
    } else {
        let s2 = s.drop_first();
        assert(s.push(c).drop_first() =~= s2.push(c));
        assert(s.push(c)[0] == s[0]);
        lemma_json_escape_push(s2, c);
        assert(json_escape(s.push(c)) == json_escape_char(s[0]) + (json_escape(s2)
            + json_escape_char(c)));
        assert(json_escape_char(s[0]) + (json_escape(s2) + json_escape_char(c)) =~= (
        json_escape_char(s[0]) + json_escape(s2)) + json_escape_char(c));
    }
}

/// Appends the JSON escaping of `s` to `out`.
fn escape_into(out: &mut Vec<char>, s: &Vec<char>)
    ensures
        final(out)@ =~= old(out)@ + json_escape(s@),
{
    let n = s.len();
    let mut i: usize = 0;
    proof {
        assert(s@.subrange(0, 0) =~= Seq::<char>::empty());
        assert(old(out)@ + Seq::<char>::empty() =~= old(out)@);
    }
    while i < n
        invariant
            i <= n,
            n == s@.len(),
            out@ =~= old(out)@ + json_escape(s@.subrange(0, i as int)),
        decreases n - i,
    {
        let c = s[i];
        proof {
            lemma_json_escape_push(s@.subrange(0, i as int), s@[i as int]);
            assert(s@.subrange(0, i as int + 1) =~= s@.subrange(0, i as int).push(s@[i as int]));
        }
        if c == '"' {
            out.push('\\');
            out.push('"');
        } else if c == '\\' {
            out.push('\\');
            out.push('\\');
        } else if c == '\u{8}' {
            out.push('\\');
            out.push('b');
        } else if c == '\t' {
            out.push('\\');
            out.push('t');
        } else if c == '\n' {
            out.push('\\');
            out.push('n');
        } else if c == '\u{c}' {
            out.push('\\');
            out.push('f');
        } else if c == '\r' {
            out.push('\\');
            out.push('r');
        } else if (c as u32) < 0x20 {
            out.push('\\');
            out.push('u');
            out.push('0');
            out.push('0');
            out.push(hex_digit_char(c as u32 / 16));
            out.push(hex_digit_char(c as u32 % 16));
        } else {
            out.push(c);
        }
        proof {
            assert(out@ =~= old(out)@ + json_escape(s@.subrange(0, i as int + 1)));
        }
        i = i + 1;
    }
    proof {
        assert(s@.subrange(0, n as int) =~= s@);
    }
}

/// Appends every character of a literal to `out`.
fn push_literal(out: &mut Vec<char>, lit: &str)
    ensures
        final(out)@ =~= old(out)@ + lit@,
{
    let v = str_to_chars(lit);
    let n = v.len();
    let mut i: usize = 0;
    proof {
        assert(v@.subrange(0, 0) =~= Seq::<char>::empty());
        assert(old(out)@ + Seq::<char>::empty() =~= old(out)@);
    }
    while i < n
        invariant
            i <= n,
            n == v@.len(),
            v@ == lit@,
            out@ =~= old(out)@ + v@.subrange(0, i as int),
        decreases n - i,
    {
        out.push(v[i]);
        proof {
            assert(old(out)@ + v@.subrange(0, i as int + 1) =~= (old(out)@ + v@.subrange(
                0,
                i as int,
            )).push(v@[i as int]));
        }
        i = i + 1;
    }
    proof {
        assert(v@.subrange(0, n as int) =~= v@);
    }
}

pub open spec fn is_hex_lower(c: char) -> bool {
    ('0' <= c && c <= '9') || ('a' <= c && c <= 'f')
}

pub open spec fn hex_val(c: char) -> int {
    if '0' <= c && c <= '9' {
        c as int - '0' as int
    } else {
        c as int - 'a' as int + 10
    }
}

/// The character a named escape stands for, keyed by the character after
/// the backslash.
pub open spec fn named_escape(c: char) -> Option<char> {
    if c == '"' {
        Some('"')
    } else if c == '\\' {
        Some('\\')
    } else if c == 'b' {
        Some('\u{8}')
    } else if c == 't' {
        Some('\t')
    } else if c == 'n' {
        Some('\n')
    } else if c == 'f' {
        Some('\u{c}')
    } else if c == 'r' {
        Some('\r')
    } else {
        None
    }
}

/// The control codes that the encoder spells with a named escape, never
/// with `\u00..`.
pub open spec fn named_code(n: int) -> bool {
    n == 8 || n == 9 || n == 10 || n == 12 || n == 13
}

/// The control character with a given code, written out so that each case
/// is a concrete scalar.
pub open spec fn code_char(n: int) -> char {
    if n == 0x0 {
        '\u{0}'
    } else if n == 0x1 {
        '\u{1}'
    } else if n == 0x2 {
        '\u{2}'
    } else if n == 0x3 {
        '\u{3}'
    } else if n == 0x4 {
        '\u{4}'
    } else if n == 0x5 {
        '\u{5}'
    } else if n == 0x6 {
        '\u{6}'
    } else if n == 0x7 {
        '\u{7}'
    } else if n == 0x8 {
        '\u{8}'
    } else if n == 0x9 {
        '\u{9}'
    } else if n == 0xa {
        '\u{a}'
    } else if n == 0xb {
        '\u{b}'
    } else if n == 0xc {
        '\u{c}'
    } else if n == 0xd {
        '\u{d}'
    } else if n == 0xe {
        '\u{e}'
    } else if n == 0xf {
        '\u{f}'
    } else if n == 0x10 {
        '\u{10}'
    } else if n == 0x11 {
        '\u{11}'
    } else if n == 0x12 {
        '\u{12}'
    } else if n == 0x13 {
        '\u{13}'
    } else if n == 0x14 {
        '\u{14}'
    } else if n == 0x15 {
        '\u{15}'
    } else if n == 0x16 {
        '\u{16}'
    } else if n == 0x17 {
        '\u{17}'
    } else if n == 0x18 {
        '\u{18}'
    } else if n == 0x19 {
        '\u{19}'
    } else if n == 0x1a {
        '\u{1a}'
    } else if n == 0x1b {
        '\u{1b}'
    } else if n == 0x1c {
        '\u{1c}'
    } else if n == 0x1d {
        '\u{1d}'
    } else if n == 0x1e {
        '\u{1e}'
    } else {
        '\u{1f}'
    }
}

proof fn lemma_code_char_val(n: int)
    requires
        0 <= n < 0x20,
    ensures
        code_char(n) as u32 == n,
{
}

proof fn lemma_char_u32_injective(a: char, b: char)
    requires
        a as u32 == b as u32,
    ensures
        a == b,
{
    vstd::utf8::char_u32_cast(a, a as u32);
    vstd::utf8::char_u32_cast(b, b as u32);
}

proof fn lemma_char_code_char(c: char)
    requires
        (c as u32) < 0x20,
    ensures
        code_char(c as u32 as int) == c,
{
    lemma_code_char_val(c as u32 as int);
    lemma_char_u32_injective(code_char(c as u32 as int), c);
}

/// The inverse of `json_escape`, accepting exactly its output: named
/// escapes for the quote, the backslash and the five named control
/// characters, `\u00..` in lowercase hex for the other control characters,
/// and everything else raw.
pub open spec fn spec_unescape(s: Seq<char>) -> Option<Seq<char>>
    decreases s.len(),
{
    if s.len() == 0 {
        Some(Seq::empty())
    } else if s[0] == '\\' {
        if s.len() < 2 {
            None
        } else if named_escape(s[1]) is Some {
            match spec_unescape(s.skip(2)) {
                Some(rest) => Some(seq![named_escape(s[1])->0] + rest),
                None => None,
            }
        } else if s[1] == 'u' {
            if s.len() < 6 {
                None
            } else if s[2] == '0' && s[3] == '0' && is_hex_lower(s[4]) && is_hex_lower(s[5]) {
                let code = 16 * hex_val(s[4]) + hex_val(s[5]);
                if code < 0x20 && !named_code(code) {
                    match spec_unescape(s.skip(6)) {
                        Some(rest) => Some(seq![code_char(code)] + rest),
                        None => None,
                    }
                } else {
                    None
                }
            } else {
                None
            }
        } else {
            None
        }
    } else if s[0] == '"' || (s[0] as u32) < 0x20 {
        None
    } else {
        match spec_unescape(s.drop_first()) {
            Some(rest) => Some(seq![s[0]] + rest),
            None => None,
        }
    }
}

proof fn lemma_hex_digit_val(n: int)
    requires
        0 <= n < 16,
    ensures
        is_hex_lower(hex_digit(n)),
        hex_val(hex_digit(n)) == n,
{
}

proof fn lemma_hex_val_digit(d: char)
    requires
        is_hex_lower(d),
    ensures
        0 <= hex_val(d) < 16,
        hex_digit(hex_val(d)) == d,
{
}

/// Unescaping inverts escaping: the decoder accepts every encoder output
/// and recovers the original characters.
pub proof fn lemma_unescape_escape(s: Seq<char>)
    ensures
        spec_unescape(json_escape(s)) == Some(s),
    decreases s.len(),
{
    if s.len() > 0 {
        let c = s[0];
        let e = json_escape_char(c);
        let rest = json_escape(s.drop_first());
        let t = e + rest;
        assert(json_escape(s) == t);
        lemma_unescape_escape(s.drop_first());
        if c == '"' || c == '\\' || c == '\u{8}' || c == '\t' || c == '\n' || c == '\u{c}' || c
            == '\r' {
            assert(t[0] == '\\');
            assert(named_escape(t[1]) == Some(c));
            assert(t.skip(2) =~= rest);
            assert(seq![c] + s.drop_first() =~= s);
        } else if (c as u32) < 0x20 {
            let hi = c as u32 as int / 16;
            let lo = c as u32 as int % 16;
            lemma_hex_digit_val(hi);
            lemma_hex_digit_val(lo);
            assert(t[0] == '\\' && t[1] == 'u' && t[2] == '0' && t[3] == '0');
            assert(t[4] == hex_digit(hi) && t[5] == hex_digit(lo));
            let code = 16 * hex_val(t[4]) + hex_val(t[5]);
            assert(code == c as u32 as int);
            assert(!named_code(code)) by {
                if named_code(code) {
                    lemma_char_code_char(c);
                }
            }
            assert(code_char(code) == c) by {
                lemma_char_code_char(c);
            }
            assert(t.skip(6) =~= rest);
            assert(seq![c] + s.drop_first() =~= s);
        } else {
            assert(t[0] == c);
            assert(t[0] != '\\' && t[0] != '"' && !((t[0] as u32) < 0x20));
            assert(t.drop_first() =~= rest);
            assert(seq![c] + s.drop_first() =~= s);
        }
    }
}

/// Unescaping is sound: whatever the decoder accepts re-escapes to the very
/// characters that arrived, so accepted input is canonical.
pub proof fn lemma_escape_unescape(m: Seq<char>)
    ensures
        spec_unescape(m) is Some ==> json_escape(spec_unescape(m)->0) == m,
    decreases m.len(),
{
    if m.len() == 0 {
    } else if m[0] == '\\' {
        if m.len() < 2 {
        } else if named_escape(m[1]) is Some {
            let x = named_escape(m[1])->0;
            lemma_escape_unescape(m.skip(2));
            if spec_unescape(m.skip(2)) is Some {
                let rest = spec_unescape(m.skip(2))->0;
                let out = seq![x] + rest;
                assert(out[0] == x);
                assert(out.drop_first() =~= rest);
                assert(json_escape(out) == json_escape_char(x) + json_escape(rest));
                assert(json_escape_char(x) =~= m.subrange(0, 2));
                assert(m.subrange(0, 2) + m.skip(2) =~= m);
            }
        } else if m[1] == 'u' {
            if m.len() >= 6 && m[2] == '0' && m[3] == '0' && is_hex_lower(m[4]) && is_hex_lower(
                m[5],
            ) {
                let code = 16 * hex_val(m[4]) + hex_val(m[5]);
                lemma_hex_val_digit(m[4]);
                lemma_hex_val_digit(m[5]);
                if code < 0x20 && !named_code(code) {
                    lemma_escape_unescape(m.skip(6));
                    if spec_unescape(m.skip(6)) is Some {
                        let x = code_char(code);
                        assert(x as u32 == code) by {
                            lemma_code_char_val(code);
                        }
                        let rest = spec_unescape(m.skip(6))->0;
                        let out = seq![x] + rest;
                        assert(out[0] == x);
                        assert(out.drop_first() =~= rest);
                        assert(json_escape(out) == json_escape_char(x) + json_escape(rest));
                        assert(x != '"' && x != '\\' && x != '\u{8}' && x != '\t' && x != '\n' && x
                            != '\u{c}' && x != '\r');
                        assert(hex_digit(code / 16) == m[4]) by {
                            assert(code / 16 == hex_val(m[4]));
                        }
                        assert(hex_digit(code % 16) == m[5]) by {
                            assert(code % 16 == hex_val(m[5]));
                        }
                        assert(json_escape_char(x) =~= m.subrange(0, 6));
                        assert(m.subrange(0, 6) + m.skip(6) =~= m);
                    }
                }
            }
        }
    } else if m[0] == '"' || (m[0] as u32) < 0x20 {
    } else {
        lemma_escape_unescape(m.drop_first());
        if spec_unescape(m.drop_first()) is Some {
            let rest = spec_unescape(m.drop_first())->0;
            let out = seq![m[0]] + rest;
            assert(out[0] == m[0]);
            assert(out.drop_first() =~= rest);
            assert(json_escape(out) == json_escape_char(m[0]) + json_escape(rest));
            assert(json_escape_char(m[0]) =~= seq![m[0]]);
            assert(seq![m[0]] + m.drop_first() =~= m);
        }
    }
}

fn is_hex_lower_char(c: char) -> (r: bool)
    ensures
        r == is_hex_lower(c),
{
    (c >= '0' && c <= '9') || (c >= 'a' && c <= 'f')
}

fn hex_val_char(c: char) -> (r: u32)
    requires
        is_hex_lower(c),
    ensures
        r as int == hex_val(c),
        r < 16,
{
    if c >= '0' && c <= '9' {
        c as u32 - 48
    } else {
        c as u32 - 97 + 10
    }
}

/// The control character with a given code.
fn control_char(code: u32) -> (r: char)
    requires
        code < 0x20,
    ensures
        r == code_char(code as int),
{
    if code == 0x0 {
        '\u{0}'
    } else if code == 0x1 {
        '\u{1}'
    } else if code == 0x2 {
        '\u{2}'
    } else if code == 0x3 {
        '\u{3}'
    } else if code == 0x4 {
        '\u{4}'
    } else if code == 0x5 {
        '\u{5}'
    } else if code == 0x6 {
        '\u{6}'
    } else if code == 0x7 {
        '\u{7}'
    } else if code == 0x8 {
        '\u{8}'
    } else if code == 0x9 {
        '\u{9}'
    } else if code == 0xa {
        '\u{a}'
    } else if code == 0xb {
        '\u{b}'
    } else if code == 0xc {
        '\u{c}'
    } else if code == 0xd {
        '\u{d}'
    } else if code == 0xe {
        '\u{e}'
    } else if code == 0xf {
        '\u{f}'
    } else if code == 0x10 {
        '\u{10}'
    } else if code == 0x11 {
        '\u{11}'
    } else if code == 0x12 {
        '\u{12}'
    } else if code == 0x13 {
        '\u{13}'
    } else if code == 0x14 {
        '\u{14}'
    } else if code == 0x15 {
        '\u{15}'
    } else if code == 0x16 {
        '\u{16}'
    } else if code == 0x17 {
        '\u{17}'
    } else if code == 0x18 {
        '\u{18}'
    } else if code == 0x19 {
        '\u{19}'
    } else if code == 0x1a {
        '\u{1a}'
    } else if code == 0x1b {
        '\u{1b}'
    } else if code == 0x1c {
        '\u{1c}'
    } else if code == 0x1d {
        '\u{1d}'
    } else if code == 0x1e {
        '\u{1e}'
    } else {
        '\u{1f}'
    }
}

/// Undoes the JSON escaping, accepting exactly the encoder's output.
fn unescape_chars(v: &Vec<char>) -> (r: Option<Vec<char>>)
    ensures
        match r {
            Some(out) => spec_unescape(v@) == Some(out@),
            None => spec_unescape(v@) is None,
        },
{
    let n = v.len();
    let mut out: Vec<char> = Vec::new();
    let mut i: usize = 0;
    proof {
        assert(v@.skip(0) =~= v@);
        assert(out@ + v@ =~= v@);
    }
    while i < n
        invariant
            i <= n,
            n == v@.len(),
            match spec_unescape(v@.skip(i as int)) {
                Some(tail) => spec_unescape(v@) == Some(out@ + tail),
                None => spec_unescape(v@) is None,
            },
        decreases n - i,
    {
        let ghost s = v@.skip(i as int);
        proof {
            assert(s.len() == n - i);
            assert(s[0] == v@[i as int]);
        }
        let c = v[i];
        if c == '\\' {
            if n - i < 2 {
                proof {
                    assert(spec_unescape(s) is None);
                }
                return None;
            }
            let e = v[i + 1];
            proof {
                assert(s[1] == v@[i as int + 1]);
                assert(s.skip(2) =~= v@.skip(i as int + 2));
            }
            let decoded: Option<char> = if e == '"' {
                Some('"')
            } else if e == '\\' {
                Some('\\')
            } else if e == 'b' {
                Some('\u{8}')
            } else if e == 't' {
                Some('\t')
            } else if e == 'n' {
                Some('\n')
            } else if e == 'f' {
                Some('\u{c}')
            } else if e == 'r' {
                Some('\r')
            } else {
                None
            };
            match decoded {
                Some(x) => {
                    proof {
                        assert(named_escape(s[1]) == Some(x));
                        match spec_unescape(v@.skip(i as int + 2)) {
                            Some(t2) => {
                                assert(spec_unescape(s) == Some(seq![x] + t2));
                                assert(out@ + (seq![x] + t2) =~= out@.push(x) + t2);
                            },
                            None => {},
                        }
                    }
                    out.push(x);
                    i = i + 2;
                },
                None => {
                    if e != 'u' {
                        proof {
                            assert(named_escape(s[1]) is None);
                            assert(spec_unescape(s) is None);
                        }
                        return None;
                    }
                    if n - i < 6 {
                        proof {
                            assert(spec_unescape(s) is None);
                        }
                        return None;
                    }
                    let d2 = v[i + 2];
                    let d3 = v[i + 3];
                    let d4 = v[i + 4];
                    let d5 = v[i + 5];
                    proof {
                        assert(s[2] == v@[i as int + 2]);
                        assert(s[3] == v@[i as int + 3]);
                        assert(s[4] == v@[i as int + 4]);
                        assert(s[5] == v@[i as int + 5]);
                        assert(s.skip(6) =~= v@.skip(i as int + 6));
                    }
                    if !(d2 == '0' && d3 == '0' && is_hex_lower_char(d4) && is_hex_lower_char(d5)) {
                        proof {
                            assert(spec_unescape(s) is None);
                        }
                        return None;
                    }
                    let code: u32 = 16 * hex_val_char(d4) + hex_val_char(d5);
                    if !(code < 0x20 && code != 8 && code != 9 && code != 10 && code != 12 && code
                        != 13) {
                        proof {
                            assert(spec_unescape(s) is None);
                        }
                        return None;
                    }
                    let x = control_char(code);
                    proof {
                        match spec_unescape(v@.skip(i as int + 6)) {
                            Some(t2) => {
                                assert(spec_unescape(s) == Some(seq![x] + t2));
                                assert(out@ + (seq![x] + t2) =~= out@.push(x) + t2);
                            },
                            None => {},
                        }
                    }
                    out.push(x);
                    i = i + 6;
                },
            }
        } else if c == '"' || (c as u32) < 0x20 {
            proof {
                assert(spec_unescape(s) is None);
            }
            return None;
        } else {
            proof {
                assert(s.drop_first() =~= v@.skip(i as int + 1));
                match spec_unescape(v@.skip(i as int + 1)) {
                    Some(t2) => {
                        assert(spec_unescape(s) == Some(seq![c] + t2));
                        assert(out@ + (seq![c] + t2) =~= out@.push(c) + t2);
                    },
                    None => {},
                }
            }
            out.push(c);
            i = i + 1;
        }
    }
    proof {
        assert(v@.skip(n as int) =~= Seq::<char>::empty());
        assert(out@ + Seq::<char>::empty() =~= out@);
    }
    Some(out)
}

/// How the object form of a `SetLanguage` command decomposes: a fixed
/// sixteen-character head, the escaped language, and a two-character tail.
proof fn lemma_setlanguage_encoding_parts(l: Seq<char>)
    ensures
        ({
            let e = "{\"SetLanguage\":\""@ + json_escape(l) + "\"}"@;
            &&& e.len() == 18 + json_escape(l).len()
            &&& e.subrange(0, 16) =~= "{\"SetLanguage\":\""@
            &&& e.subrange(e.len() - 2, e.len() as int) =~= "\"}"@
            &&& e.subrange(16, e.len() - 2) =~= json_escape(l)
            &&& e[0] == '{'
        }),
{
    reveal_strlit("{\"SetLanguage\":\"");
    reveal_strlit("\"}");
}

/// Decodes one command from its canonical wire spelling.  Exactly the
/// encoder's outputs are accepted: a decoded command re-encodes to the very
/// characters that arrived, and `None` comes back only for input that no
/// command encodes to.
pub fn decode_command(s: &str) -> (r: Option<Command>)
    ensures
        match r {
            Some(c) => s@ == spec_encode_command(c),
            None => forall|c: Command| s@ != spec_encode_command(c),
        },
{
    if str_eq(s, "\"Start\"") {
        return Some(Command::Start);
    }
    if str_eq(s, "\"Stop\"") {
        return Some(Command::Stop);
    }
    if str_eq(s, "\"Pause\"") {
        return Some(Command::Pause);
    }
    if str_eq(s, "\"Resume\"") {
        return Some(Command::Resume);
    }
    if str_eq(s, "\"Status\"") {
        return Some(Command::Status);
    }
    if str_eq(s, "\"Toggle\"") {
        return Some(Command::Toggle);
    }
    let v = str_to_chars(s);
    let n = v.len();
    let prefix = str_to_chars("{\"SetLanguage\":\"");
    proof {
        reveal_strlit("{\"SetLanguage\":\"");
        assert(prefix@.len() == 16);
    }
    if n < 18 {
        proof {
            assert forall|c: Command| s@ != spec_encode_command(c) by {
                match c {
                    Command::SetLanguage(l) => {
                        lemma_setlanguage_encoding_parts(l@);
                    },
                    _ => {},
                }
            }
        }
        return None;
    }
    let mut j: usize = 0;
    while j < 16
        invariant
            j <= 16,
            n == v@.len(),
            n >= 18,
            v@ == s@,
            prefix@ == "{\"SetLanguage\":\""@,
            prefix@.len() == 16,
            s@ != "\"Start\""@,
            s@ != "\"Stop\""@,
            s@ != "\"Pause\""@,
            s@ != "\"Resume\""@,
            s@ != "\"Status\""@,
            s@ != "\"Toggle\""@,
            forall|k: int| 0 <= k < j ==> v@[k] == prefix@[k],
        decreases 16 - j,
    {
        if v[j] != prefix[j] {
            proof {
                let bad = j as int;
                assert(v@[bad] != prefix@[bad]);
                assert forall|c: Command| s@ != spec_encode_command(c) by {
                    match c {
                        Command::SetLanguage(l) => {
                            lemma_setlanguage_encoding_parts(l@);
                            let e = spec_encode_command(c);
                            if s@ == e {
                                assert(e.subrange(0, 16)[bad] == e[bad]);
                                assert(prefix@[bad] == e[bad]);
                            }
                        },
                        _ => {},
                    }
                }
            }
            return None;
        }
        j = j + 1;
    }
    if !(v[n - 2] == '"' && v[n - 1] == '}') {
        proof {
            reveal_strlit("\"}");
            assert forall|c: Command| s@ != spec_encode_command(c) by {
                match c {
                    Command::SetLanguage(l) => {
                        lemma_setlanguage_encoding_parts(l@);
                        let e = spec_encode_command(c);
                        if s@ == e {
                            assert(e.subrange(e.len() - 2, e.len() as int)[0] == e[e.len() - 2]);
                            assert(e.subrange(e.len() - 2, e.len() as int)[1] == e[e.len() - 1]);
                            assert(v@[n - 2] == '"' && v@[n - 1] == '}');
                        }
                    },
                    _ => {},
                }
            }
        }
        return None;
    }
    let mut mid: Vec<char> = Vec::new();
    let mut i: usize = 16;
    while i < n - 2
        invariant
            16 <= i <= n - 2,
            n == v@.len(),
            n >= 18,
            mid@ =~= v@.subrange(16, i as int),
        decreases n - i,
    {
        mid.push(v[i]);
        proof {
            assert(v@.subrange(16, i as int + 1) =~= v@.subrange(16, i as int).push(v@[i as int]));
        }
        i = i + 1;
    }
    proof {
        assert(mid@ =~= v@.subrange(16, n as int - 2));
    }
    match unescape_chars(&mid) {
        Some(l) => {
            let lang = chars_to_string(&l);
            proof {
                lemma_escape_unescape(mid@);
                assert(json_escape(l@) == mid@);
                lemma_setlanguage_encoding_parts(l@);
                let e = "{\"SetLanguage\":\""@ + json_escape(l@) + "\"}"@;
                assert(s@ =~= e) by {
                    assert(forall|k: int| 0 <= k < 16 ==> v@[k] == prefix@[k]);
                    assert(e.len() == s@.len());
                    assert forall|k: int| 0 <= k < e.len() implies s@[k] == e[k] by {
                        if k < 16 {
                            assert(e.subrange(0, 16)[k] == e[k]);
                        } else if k < e.len() - 2 {
                            assert(e.subrange(16, e.len() - 2)[k - 16] == e[k]);
                            assert(mid@[k - 16] == v@[k]);
                        } else {
                            reveal_strlit("\"}");
                            assert(e.subrange(e.len() - 2, e.len() as int)[k - (e.len() - 2)]
                                == e[k]);
                        }
                    }
                }
            }
            Some(Command::SetLanguage(lang))
        },
        None => {
            proof {
                assert forall|c: Command| s@ != spec_encode_command(c) by {
                    match c {
                        Command::SetLanguage(l) => {
                            lemma_setlanguage_encoding_parts(l@);
                            let e = spec_encode_command(c);
                            if s@ == e {
                                assert(mid@ =~= e.subrange(16, e.len() - 2));
                                assert(mid@ =~= json_escape(l@));
                                lemma_unescape_escape(l@);
                                assert(spec_unescape(mid@) == Some(l@));
                            }
                        },
                        _ => {},
                    }
                }
            }
            None
        },
    }
}

/// Whether `lit` occurs in `v` starting at `at`.
fn match_at(v: &Vec<char>, at: usize, lit: &Vec<char>) -> (r: bool)
    requires
        at <= v@.len(),
    ensures
        r == (at + lit@.len() <= v@.len() && v@.subrange(at as int, at as int + lit@.len())
            == lit@),
{
    let m = lit.len();
    if v.len() - at < m {
        return false;
    }
    let mut j: usize = 0;
    while j < m
        invariant
            j <= m,
            m == lit@.len(),
            at + m <= v@.len(),
            v@.len() <= usize::MAX,
            forall|k: int| 0 <= k < j ==> v@[at + k] == lit@[k],
        decreases m - j,
    {
        proof {
            assert(at + j < v@.len());
        }
        if v[at + j] != lit[j] {
            proof {
                assert(v@.subrange(at as int, at as int + m)[j as int] == v@[at + j]);
            }
            return false;
        }
        j = j + 1;
    }
    proof {
        assert(v@.subrange(at as int, at as int + m) =~= lit@);
    }
    true
}

/// How the object form of an `Error` response decomposes: a fixed
/// ten-character head, the escaped message, and a two-character tail.
proof fn lemma_error_encoding_parts(m: Seq<char>)
    ensures
        ({
            let e = "{\"Error\":\""@ + json_escape(m) + "\"}"@;
            &&& e.len() == 12 + json_escape(m).len()
            &&& e.subrange(0, 10) =~= "{\"Error\":\""@
            &&& e.subrange(e.len() - 2, e.len() as int) =~= "\"}"@
            &&& e.subrange(10, e.len() - 2) =~= json_escape(m)
            &&& e[0] == '{'
            &&& e[2] == 'E'
        }),
{
    reveal_strlit("{\"Error\":\"");
    reveal_strlit("\"}");
}

/// How a `Status` response decomposes: a fixed head through `is_running`,
/// the two booleans with their fixed separators, the escaped language, and
/// a three-character tail.
proof fn lemma_status_encoding_parts(st: StatusInfo)
    ensures
        ({
            let e = spec_encode_response(Response::Status(st));
            let o1: int = 24;
            let o2 = o1 + spec_bool(st.is_running).len();
            let o3 = o2 + 13;
            let o4 = o3 + spec_bool(st.is_active).len();
            let o5 = o4 + 13;
            &&& e.len() == o5 + json_escape(st.language@).len() + 3
            &&& e.subrange(0, 24) =~= "{\"Status\":{\"is_running\":"@
            &&& e.subrange(o1 as int, o2 as int) =~= spec_bool(st.is_running)
            &&& e.subrange(o2 as int, o3 as int) =~= ",\"is_active\":"@
            &&& e.subrange(o3 as int, o4 as int) =~= spec_bool(st.is_active)
            &&& e.subrange(o4 as int, o5 as int) =~= ",\"language\":\""@
            &&& e.subrange(o5 as int, e.len() - 3) =~= json_escape(st.language@)
            &&& e.subrange(e.len() - 3, e.len() as int) =~= "\"}}"@
            &&& e[0] == '{'
            &&& e[2] == 'S'
        }),
{
    reveal_strlit("{\"Status\":");
    reveal_strlit("{\"is_running\":");
    reveal_strlit("{\"Status\":{\"is_running\":");
    reveal_strlit(",\"is_active\":");
    reveal_strlit(",\"language\":\"");
    reveal_strlit("\"}");
    reveal_strlit("}");
    reveal_strlit("\"}}");
    reveal_strlit("true");
    reveal_strlit("false");
}

/// Decodes one response from its canonical wire spelling, under the same
/// discipline as `decode_command`: exactly the encoder's outputs are
/// accepted.
pub fn decode_response(s: &str) -> (r: Option<Response>)
    ensures
        match r {
            Some(resp) => s@ == spec_encode_response(resp),
            None => forall|resp: Response| s@ != spec_encode_response(resp),
        },
{
    if str_eq(s, "\"Ok\"") {
        return Some(Response::Okay);
    }
    let v = str_to_chars(s);
    let n = v.len();
    let err_prefix = str_to_chars("{\"Error\":\"");
    let two_tail = str_to_chars("\"}");
    proof {
        reveal_strlit("{\"Error\":\"");
        reveal_strlit("\"}");
        assert(err_prefix@.len() == 10);
        assert(two_tail@.len() == 2);
    }
    if match_at(&v, 0, &err_prefix) {
        // Only an Error response can begin this way.
        proof {
            reveal_strlit("{\"Error\":\"");
            assert(v@.subrange(0, 10)[2] == v@[2]);
            assert(s@[2] == 'E');
        }
        if n < 12 {
            proof {
                assert forall|resp: Response| s@ != spec_encode_response(resp) by {
                    match resp {
                        Response::Error(m) => {
                            lemma_error_encoding_parts(m@);
                        },
                        Response::Status(st) => {
                            lemma_status_encoding_parts(st);
                        },
                        _ => {},
                    }
                }
            }
            return None;
        }
        if !match_at(&v, n - 2, &two_tail) {
            proof {
                assert forall|resp: Response| s@ != spec_encode_response(resp) by {
                    match resp {
                        Response::Error(m) => {
                            lemma_error_encoding_parts(m@);
                            let e = spec_encode_response(resp);
                            if s@ == e {
                                assert(v@.subrange(n as int - 2, n as int) =~= "\"}"@);
                            }
                        },
                        Response::Status(st) => {
                            lemma_status_encoding_parts(st);
                        },
                        _ => {},
                    }
                }
            }
            return None;
        }
        let mid = copy_range(&v, 10, n - 2);
        match unescape_chars(&mid) {
            Some(m) => {
                let msg = chars_to_string(&m);
                proof {
                    lemma_escape_unescape(mid@);
                    assert(json_escape(m@) == mid@);
                    lemma_error_encoding_parts(m@);
                    let e = "{\"Error\":\""@ + json_escape(m@) + "\"}"@;
                    assert(s@ =~= e) by {
                        assert(e.len() == s@.len());
                        assert forall|k: int| 0 <= k < e.len() implies s@[k] == e[k] by {
                            if k < 10 {
                                assert(v@.subrange(0, 10)[k] == v@[k]);
                                assert(e.subrange(0, 10)[k] == e[k]);
                            } else if k < e.len() - 2 {
                                assert(e.subrange(10, e.len() - 2)[k - 10] == e[k]);
                                assert(mid@[k - 10] == v@[k]);
                            } else {
                                assert(e.subrange(e.len() - 2, e.len() as int)[k - (e.len() - 2)]
                                    == e[k]);
                                assert(v@.subrange(n as int - 2, n as int)[k - (n - 2)] == v@[k]);
                            }
                        }
                    }
                }
                Some(Response::Error(msg))
            },
            None => {
                proof {
                    assert forall|resp: Response| s@ != spec_encode_response(resp) by {
                        match resp {
                            Response::Error(m) => {
                                lemma_error_encoding_parts(m@);
                                let e = spec_encode_response(resp);
                                if s@ == e {
                                    assert(mid@ =~= e.subrange(10, e.len() - 2));
                                    assert(mid@ =~= json_escape(m@));
                                    lemma_unescape_escape(m@);
                                }
                            },
                            Response::Status(st) => {
                                lemma_status_encoding_parts(st);
                            },
                            _ => {},
                        }
                    }
                }
                None
            },
        }
    } else {
        decode_status_response(s, &v)
    }
}

/// The `Status` arm of response decoding; reached once the input is known
/// to be neither `"Ok"` nor an `Error` object.
#[verifier::rlimit(100)]
fn decode_status_response(s: &str, v: &Vec<char>) -> (r: Option<Response>)
    requires
        v@ == s@,
        s@ != "\"Ok\""@,
        !(10 <= s@.len() && s@.subrange(0, 10) == "{\"Error\":\""@),
    ensures
        match r {
            Some(resp) => s@ == spec_encode_response(resp),
            None => forall|resp: Response| s@ != spec_encode_response(resp),
        },
{
    let n = v.len();
    let head = str_to_chars("{\"Status\":{\"is_running\":");
    let lit_true = str_to_chars("true");
    let lit_false = str_to_chars("false");
    let mid_active = str_to_chars(",\"is_active\":");
    let mid_language = str_to_chars(",\"language\":\"");
    let tail = str_to_chars("\"}}");
    proof {
        reveal_strlit("{\"Status\":{\"is_running\":");
        reveal_strlit("true");
        reveal_strlit("false");
        reveal_strlit(",\"is_active\":");
        reveal_strlit(",\"language\":\"");
        reveal_strlit("\"}}");
        assert(head@.len() == 24);
        assert(lit_true@.len() == 4);
        assert(lit_false@.len() == 5);
        assert(mid_active@.len() == 13);
        assert(mid_language@.len() == 13);
        assert(tail@.len() == 3);
    }
    if !match_at(v, 0, &head) {
        proof {
            assert forall|resp: Response| s@ != spec_encode_response(resp) by {
                match resp {
                    Response::Error(m) => {
                        lemma_error_encoding_parts(m@);
                    },
                    Response::Status(st) => {
                        lemma_status_encoding_parts(st);
                    },
                    _ => {},
                }
            }
        }
        return None;
    }
    let (is_running, o2): (bool, usize) = if match_at(v, 24, &lit_true) {
        (true, 28)
    } else if match_at(v, 24, &lit_false) {
        (false, 29)
    } else {
        proof {
            reveal_strlit("true");
            reveal_strlit("false");
            assert forall|resp: Response| s@ != spec_encode_response(resp) by {
                match resp {
                    Response::Error(m) => {
                        lemma_error_encoding_parts(m@);
                    },
                    Response::Status(st) => {
                        lemma_status_encoding_parts(st);
                        let e = spec_encode_response(resp);
                        if s@ == e {
                            assert(e.subrange(24, 24 + spec_bool(st.is_running).len() as int)
                                =~= spec_bool(st.is_running));
                        }
                    },
                    _ => {},
                }
            }
        }
        return None;
    };
    proof {
        reveal_strlit("true");
        reveal_strlit("false");
        assert(v@.subrange(24, o2 as int) == spec_bool(is_running));
        assert(o2 == 24 + spec_bool(is_running).len());
    }
    if !match_at(v, o2, &mid_active) {
        proof {
            assert forall|resp: Response| s@ != spec_encode_response(resp) by {
                match resp {
                    Response::Error(m) => {
                        lemma_error_encoding_parts(m@);
                    },
                    Response::Status(st) => {
                        lemma_status_encoding_parts(st);
                        let e = spec_encode_response(resp);
                        if s@ == e {
                            lemma_bool_at(st.is_running, is_running, s@, 24);
                            assert(e.subrange(o2 as int, o2 + 13) =~= ",\"is_active\":"@);
                        }
                    },
                    _ => {},
                }
            }
        }
        return None;
    }
    let o3 = o2 + 13;
    let (is_active, o4): (bool, usize) = if match_at(v, o3, &lit_true) {
        (true, o3 + 4)
    } else if match_at(v, o3, &lit_false) {
        (false, o3 + 5)
    } else {
        proof {
            reveal_strlit("true");
            reveal_strlit("false");
            assert forall|resp: Response| s@ != spec_encode_response(resp) by {
                match resp {
                    Response::Error(m) => {
                        lemma_error_encoding_parts(m@);
                    },
                    Response::Status(st) => {
                        lemma_status_encoding_parts(st);
                        let e = spec_encode_response(resp);
                        if s@ == e {
                            lemma_bool_at(st.is_running, is_running, s@, 24);
                            assert(e.subrange(o3 as int, o3 + spec_bool(st.is_active).len() as int)
                                =~= spec_bool(st.is_active));
                        }
                    },
                    _ => {},
                }
            }
        }
        return None;
    };
    proof {
        reveal_strlit("true");
        reveal_strlit("false");
        assert(v@.subrange(o3 as int, o4 as int) == spec_bool(is_active));
        assert(o4 == o3 + spec_bool(is_active).len());
    }
    if !match_at(v, o4, &mid_language) {
        proof {
            assert forall|resp: Response| s@ != spec_encode_response(resp) by {
                match resp {
                    Response::Error(m) => {
                        lemma_error_encoding_parts(m@);
                    },
                    Response::Status(st) => {
                        lemma_status_encoding_parts(st);
                        let e = spec_encode_response(resp);
                        if s@ == e {
                            lemma_bool_at(st.is_running, is_running, s@, 24);
                            lemma_bool_at(st.is_active, is_active, s@, o3 as int);
                            assert(e.subrange(o4 as int, o4 + 13) =~= ",\"language\":\""@);
                        }
                    },
                    _ => {},
                }
            }
        }
        return None;
    }
    let o5 = o4 + 13;
    if n < o5 + 3 || !match_at(v, n - 3, &tail) {
        proof {
            assert forall|resp: Response| s@ != spec_encode_response(resp) by {
                match resp {
                    Response::Error(m) => {
                        lemma_error_encoding_parts(m@);
                    },
                    Response::Status(st) => {
                        lemma_status_encoding_parts(st);
                        let e = spec_encode_response(resp);
                        if s@ == e {
                            lemma_bool_at(st.is_running, is_running, s@, 24);
                            lemma_bool_at(st.is_active, is_active, s@, o3 as int);
                            assert(e.len() == o5 + json_escape(st.language@).len() + 3);
                            assert(e.subrange(e.len() - 3, e.len() as int) =~= "\"}}"@);
                        }
                    },
                    _ => {},
                }
            }
        }
        return None;
    }
    let mid = copy_range(v, o5, n - 3);
    match unescape_chars(&mid) {
        Some(l) => {
            let language = chars_to_string(&l);
            let st = StatusInfo { is_running, is_active, language };
            proof {
                lemma_escape_unescape(mid@);
                assert(json_escape(l@) == mid@);
                lemma_status_encoding_parts(st);
                let e = spec_encode_response(Response::Status(st));
                assert(st.language@ == l@);
                assert(s@ =~= e) by {
                    assert(e.len() == s@.len());
                    assert forall|k: int| 0 <= k < e.len() implies s@[k] == e[k] by {
                        lemma_piece(e, s@, 0, 24, k);
                        lemma_piece(e, s@, 24, o2 as int, k);
                        lemma_piece(e, s@, o2 as int, o3 as int, k);
                        lemma_piece(e, s@, o3 as int, o4 as int, k);
                        lemma_piece(e, s@, o4 as int, o5 as int, k);
                        if o5 <= k < e.len() - 3 {
                            assert(e.subrange(o5 as int, e.len() - 3)[k - o5] == e[k]);
                            assert(mid@[k - o5] == v@[k]);
                        }
                        lemma_piece(e, s@, e.len() - 3, e.len() as int, k);
                    }
                }
            }
            Some(Response::Status(st))
        },
        None => {
            proof {
                assert forall|resp: Response| s@ != spec_encode_response(resp) by {
                    match resp {
                        Response::Error(m) => {
                            lemma_error_encoding_parts(m@);
                        },
                        Response::Status(st) => {
                            lemma_status_encoding_parts(st);
                            let e = spec_encode_response(resp);
                            if s@ == e {
                                lemma_bool_at(st.is_running, is_running, s@, 24);
                                lemma_bool_at(st.is_active, is_active, s@, o3 as int);
                                assert(mid@ =~= e.subrange(o5 as int, e.len() - 3));
                                assert(mid@ =~= json_escape(st.language@));
                                lemma_unescape_escape(st.language@);
                            }
                        },
                        _ => {},
                    }
                }
            }
            None
        },
    }
}

/// Two boolean spellings occupying the same offset of the same sequence
/// must spell the same boolean: `true` and `false` differ already in their
/// first character.
proof fn lemma_bool_at(st_b: bool, got_b: bool, s: Seq<char>, at: int)
    requires
        0 <= at,
        at + spec_bool(st_b).len() <= s.len(),
        at + spec_bool(got_b).len() <= s.len(),
        s.subrange(at, at + spec_bool(st_b).len()) == spec_bool(st_b),
        s.subrange(at, at + spec_bool(got_b).len()) == spec_bool(got_b),
    ensures
        st_b == got_b,
{
    reveal_strlit("true");
    reveal_strlit("false");
    if st_b != got_b {
        assert(s.subrange(at, at + spec_bool(st_b).len())[0] == s[at]);
        assert(s.subrange(at, at + spec_bool(got_b).len())[0] == s[at]);
        assert(spec_bool(st_b)[0] != spec_bool(got_b)[0]);
    }
}

/// Indexing through a subrange equality: if two sequences agree on a piece
/// as subranges, they agree at each index inside it.
proof fn lemma_piece(e: Seq<char>, s: Seq<char>, lo: int, hi: int, k: int)
    requires
        0 <= lo <= hi <= e.len(),
        hi <= s.len(),
        e.subrange(lo, hi) == s.subrange(lo, hi),
    ensures
        lo <= k < hi ==> e[k] == s[k],
{
    if lo <= k < hi {
        assert(e.subrange(lo, hi)[k - lo] == e[k]);
        assert(s.subrange(lo, hi)[k - lo] == s[k]);
    }
}

/// The characters of `v` from `lo` up to `hi`, as a fresh vector.
fn copy_range(v: &Vec<char>, lo: usize, hi: usize) -> (r: Vec<char>)
    requires
        lo <= hi <= v@.len(),
    ensures
        r@ =~= v@.subrange(lo as int, hi as int),
{
    let mut r: Vec<char> = Vec::new();
    let mut i: usize = lo;
    while i < hi
        invariant
            lo <= i <= hi <= v@.len(),
            r@ =~= v@.subrange(lo as int, i as int),
        decreases hi - i,
    {
        r.push(v[i]);
        proof {
            assert(v@.subrange(lo as int, i as int + 1) =~= v@.subrange(lo as int, i as int).push(
                v@[i as int],
            ));
        }
        i = i + 1;
    }
    r
}

/// The wire spelling is unambiguous: two commands with the same encoding are
/// the same command (languages compared by their characters).
pub proof fn lemma_command_encoding_injective(a: Command, b: Command)
    requires
        spec_encode_command(a) == spec_encode_command(b),
    ensures
        match (a, b) {
            (Command::SetLanguage(x), Command::SetLanguage(y)) => x@ == y@,
            (Command::SetLanguage(_), _) => false,
            (_, Command::SetLanguage(_)) => false,
            _ => a == b,
        },
{
    reveal_strlit("\"Start\"");
    reveal_strlit("\"Stop\"");
    reveal_strlit("\"Pause\"");
    reveal_strlit("\"Resume\"");
    reveal_strlit("\"Status\"");
    reveal_strlit("\"Toggle\"");
    assert("\"Start\""@.len() == 7 && "\"Start\""@[0] == '"' && "\"Start\""@[1] == 'S'
        && "\"Start\""@[2] == 't');
    assert("\"Stop\""@.len() == 6 && "\"Stop\""@[0] == '"' && "\"Stop\""@[1] == 'S');
    assert("\"Pause\""@.len() == 7 && "\"Pause\""@[0] == '"' && "\"Pause\""@[1] == 'P');
    assert("\"Resume\""@.len() == 8 && "\"Resume\""@[0] == '"' && "\"Resume\""@[1] == 'R');
    assert("\"Status\""@.len() == 8 && "\"Status\""@[0] == '"' && "\"Status\""@[1] == 'S'
        && "\"Status\""@[2] == 't' && "\"Status\""@[3] == 'a');
    assert("\"Toggle\""@.len() == 8 && "\"Toggle\""@[0] == '"' && "\"Toggle\""@[1] == 'T');
    match (a, b) {
        (Command::SetLanguage(x), Command::SetLanguage(y)) => {
            lemma_setlanguage_encoding_parts(x@);
            lemma_setlanguage_encoding_parts(y@);
            let ea = spec_encode_command(a);
            assert(json_escape(x@) =~= ea.subrange(16, ea.len() - 2));
            assert(json_escape(y@) =~= ea.subrange(16, ea.len() - 2));
            lemma_unescape_escape(x@);
            lemma_unescape_escape(y@);
            assert(spec_unescape(json_escape(x@)) == Some(x@));
            assert(spec_unescape(json_escape(y@)) == Some(y@));
        },
        (Command::SetLanguage(x), _) => {
            lemma_setlanguage_encoding_parts(x@);
            assert(spec_encode_command(a)[0] == '{');
        },
        (_, Command::SetLanguage(y)) => {
            lemma_setlanguage_encoding_parts(y@);
            assert(spec_encode_command(b)[0] == '{');
        },
        _ => {},
    }
}

/// Encodes a command in its canonical JSON spelling.
pub fn encode_command(c: &Command) -> (r: String)
    ensures
        r@ == spec_encode_command(*c),
{
    match c {
        Command::Start => String::from_str("\"Start\""),
        Command::Stop => String::from_str("\"Stop\""),
        Command::Pause => String::from_str("\"Pause\""),
        Command::Resume => String::from_str("\"Resume\""),
        Command::Status => String::from_str("\"Status\""),
        Command::Toggle => String::from_str("\"Toggle\""),
        Command::SetLanguage(l) => {
            let mut out: Vec<char> = Vec::new();
            push_literal(&mut out, "{\"SetLanguage\":\"");
            let lv = str_to_chars(l.as_str());
            escape_into(&mut out, &lv);
            push_literal(&mut out, "\"}");
            proof {
                assert(out@ =~= spec_encode_command(*c));
            }
            chars_to_string(&out)
        },
    }
}

/// Encodes a status snapshot in its canonical JSON spelling.
pub fn encode_status(st: &StatusInfo) -> (r: String)
    ensures
        r@ == spec_encode_status(*st),
{
    let mut out: Vec<char> = Vec::new();
    push_literal(&mut out, "{\"is_running\":");
    push_literal(&mut out, if st.is_running {
        "true"
    } else {
        "false"
    });
    push_literal(&mut out, ",\"is_active\":");
    push_literal(&mut out, if st.is_active {
        "true"
    } else {
        "false"
    });
    push_literal(&mut out, ",\"language\":\"");
    let lv = str_to_chars(st.language.as_str());
    escape_into(&mut out, &lv);
    push_literal(&mut out, "\"}");
    proof {
        assert(out@ =~= spec_encode_status(*st));
    }
    chars_to_string(&out)
}

/// Encodes a response in its canonical JSON spelling; a successful command
/// is `"Ok"` on the wire.
pub fn encode_response(resp: &Response) -> (r: String)
    ensures
        r@ == spec_encode_response(*resp),
{
    match resp {
        Response::Okay => String::from_str("\"Ok\""),
        Response::Error(m) => {
            let mut out: Vec<char> = Vec::new();
            push_literal(&mut out, "{\"Error\":\"");
            let mv = str_to_chars(m.as_str());
            escape_into(&mut out, &mv);
            push_literal(&mut out, "\"}");
            proof {
                assert(out@ =~= spec_encode_response(*resp));
            }
            chars_to_string(&out)
        },
        Response::Status(st) => {
            let mut out: Vec<char> = Vec::new();
            push_literal(&mut out, "{\"Status\":");
            let encoded = encode_status(st);
            let sv = str_to_chars(encoded.as_str());
            let n = sv.len();
            let mut i: usize = 0;
            while i < n
                invariant
                    i <= n,
                    n == sv@.len(),
                    out@ =~= "{\"Status\":"@ + sv@.subrange(0, i as int),
                decreases n - i,
            {
                out.push(sv[i]);
                proof {
                    assert("{\"Status\":"@ + sv@.subrange(0, i as int + 1) =~= ("{\"Status\":"@
                        + sv@.subrange(0, i as int)).push(sv@[i as int]));
                }
                i = i + 1;
            }
            proof {
                assert(sv@.subrange(0, n as int) =~= sv@);
            }
            push_literal(&mut out, "}");
            proof {
                assert(out@ =~= spec_encode_response(*resp));
            }
            chars_to_string(&out)
        },
    }
}

} // verus!
