//! Post-processing of recognized text before it is typed out: trimming and
//! collapsing whitespace, dropping immediately repeated words, and removing
//! bracketed annotations such as `[noise]`, `{um}` or `(laughs)`.
//!
//! The pipeline works word-wise first — split, drop adjacent repeats,
//! re-join with single spaces — then strips bracketed spans, and finally
//! normalizes whitespace once more.

use crate::chars::{chars_eq, chars_to_string, str_to_chars};
use vstd::prelude::*;

verus! {

/// Whitespace, the separators recognized when splitting into words: the
/// Unicode white-space characters.
pub open spec fn is_space(c: char) -> bool {
    ||| c == ' '
    ||| '\t' <= c && c <= '\r'
    ||| c == '\u{85}'
    ||| c == '\u{a0}'
    ||| c == '\u{1680}'
    ||| '\u{2000}' <= c && c <= '\u{200a}'
    ||| c == '\u{2028}'
    ||| c == '\u{2029}'
    ||| c == '\u{202f}'
    ||| c == '\u{205f}'
    ||| c == '\u{3000}'
}

fn is_space_char(c: char) -> (r: bool)
    ensures
        r == is_space(c),
{
    c == ' ' || ('\t' <= c && c <= '\r') || c == '\u{85}' || c == '\u{a0}' || c == '\u{1680}' || (
    '\u{2000}' <= c && c <= '\u{200a}') || c == '\u{2028}' || c == '\u{2029}' || c == '\u{202f}'
        || c == '\u{205f}' || c == '\u{3000}'
}

/// The views of a sequence of character vectors.
pub open spec fn views_of(ws: Seq<Vec<char>>) -> Seq<Seq<char>> {
    Seq::new(ws.len(), |i: int| ws[i]@)
}

/// One character fed to the word splitter: whitespace closes the word under
/// construction, anything else extends it.
pub open spec fn words_step(acc: (Seq<Seq<char>>, Seq<char>), c: char) -> (
    Seq<Seq<char>>,
    Seq<char>,
) {
    if is_space(c) {
        if acc.1.len() > 0 {
            (acc.0.push(acc.1), Seq::empty())
        } else {
            acc
        }
    } else {
        (acc.0, acc.1.push(c))
    }
}

pub open spec fn words_scan(s: Seq<char>, acc: (Seq<Seq<char>>, Seq<char>)) -> (
    Seq<Seq<char>>,
    Seq<char>,
)
    decreases s.len(),
{
    if s.len() == 0 {
        acc
    } else {
        words_scan(s.drop_first(), words_step(acc, s[0]))
    }
}

/// The whitespace-separated words of a string, without empties.
pub open spec fn spec_words(s: Seq<char>) -> Seq<Seq<char>> {
    let f = words_scan(s, (Seq::empty(), Seq::empty()));
    if f.1.len() > 0 {
        f.0.push(f.1)
    } else {
        f.0
    }
}

proof fn lemma_words_scan_push(s: Seq<char>, c: char, acc: (Seq<Seq<char>>, Seq<char>))
    ensures
        words_scan(s.push(c), acc) == words_step(words_scan(s, acc), c),
    decreases s.len(),
{
    if s.len() == 0 {
        assert(s.push(c).drop_first() =~= s);
        assert(s.push(c)[0] == c);
        assert(words_scan(s.push(c), acc) == words_scan(s, words_step(acc, c)));
        assert(words_scan(s, words_step(acc, c)) == words_step(acc, c));
        assert(words_scan(s, acc) == acc);
    } else {
        let s2 = s.drop_first();
        assert(s.push(c).drop_first() =~= s2.push(c));
        assert(s.push(c)[0] == s[0]);
        assert(words_scan(s.push(c), acc) == words_scan(s2.push(c), words_step(acc, s[0])));
        lemma_words_scan_push(s2, c, words_step(acc, s[0]));
        assert(words_scan(s, acc) == words_scan(s2, words_step(acc, s[0])));
    }
}

/// Splits into words at whitespace; empty words never appear.
pub fn split_words(v: &Vec<char>) -> (r: Vec<Vec<char>>)
    ensures
        views_of(r@) =~~= spec_words(v@),
{
    let ghost init: (Seq<Seq<char>>, Seq<char>) = (Seq::empty(), Seq::empty());
    let mut out: Vec<Vec<char>> = Vec::new();
    let mut cur: Vec<char> = Vec::new();
    let n = v.len();
    let mut i: usize = 0;
    proof {
        assert(v@.subrange(0, 0) =~= Seq::<char>::empty());
    }
    while i < n
        invariant
            i <= n,
            n == v@.len(),
            views_of(out@) =~~= words_scan(v@.subrange(0, i as int), init).0,
            cur@ =~= words_scan(v@.subrange(0, i as int), init).1,
        decreases n - i,
    {
        let c = v[i];
        proof {
            lemma_words_scan_push(v@.subrange(0, i as int), v@[i as int], init);
            assert(v@.subrange(0, i as int + 1) =~= v@.subrange(0, i as int).push(v@[i as int]));
        }
        let ghost pre = words_scan(v@.subrange(0, i as int), init);
        if is_space_char(c) {
            if cur.len() > 0 {
                out.push(cur);
                cur = Vec::new();
                proof {
                    assert(views_of(out@) =~~= views_of(out@.drop_last()).push(
                        out@.last()@,
                    ));
                }
            }
        } else {
            cur.push(c);
        }
        i = i + 1;
    }
    proof {
        assert(v@.subrange(0, n as int) =~= v@);
    }
    if cur.len() > 0 {
        out.push(cur);
        proof {
            assert(views_of(out@) =~~= views_of(out@.drop_last()).push(out@.last()@));
        }
    }
    out
}

/// One word fed to the deduplicator: kept unless it repeats the previous one.
pub open spec fn dedup_step(acc: Seq<Seq<char>>, w: Seq<char>) -> Seq<Seq<char>> {
    if acc.len() > 0 && acc.last() == w {
        acc
    } else {
        acc.push(w)
    }
}

pub open spec fn dedup_scan(ws: Seq<Seq<char>>, acc: Seq<Seq<char>>) -> Seq<Seq<char>>
    decreases ws.len(),
{
    if ws.len() == 0 {
        acc
    } else {
        dedup_scan(ws.drop_first(), dedup_step(acc, ws.first()))
    }
}

/// The words with immediate repetitions collapsed to one occurrence.
pub open spec fn spec_dedup(ws: Seq<Seq<char>>) -> Seq<Seq<char>> {
    dedup_scan(ws, Seq::empty())
}

proof fn lemma_dedup_scan_push(ws: Seq<Seq<char>>, w: Seq<char>, acc: Seq<Seq<char>>)
    ensures
        dedup_scan(ws.push(w), acc) == dedup_step(dedup_scan(ws, acc), w),
    decreases ws.len(),
{
    if ws.len() == 0 {
        assert(ws.push(w).drop_first() =~= ws);
        assert(ws.push(w)[0] == w);
        assert(dedup_scan(ws.push(w), acc) == dedup_scan(ws, dedup_step(acc, w)));
        assert(dedup_scan(ws, dedup_step(acc, w)) == dedup_step(acc, w));
        assert(dedup_scan(ws, acc) == acc);
    } else {
        let ws2 = ws.drop_first();
        assert(ws.push(w).drop_first() =~= ws2.push(w));
        assert(ws.push(w)[0] == ws[0]);
        assert(dedup_scan(ws.push(w), acc) == dedup_scan(ws2.push(w), dedup_step(acc, ws[0])));
        lemma_dedup_scan_push(ws2, w, dedup_step(acc, ws[0]));
        assert(dedup_scan(ws, acc) == dedup_scan(ws2, dedup_step(acc, ws[0])));
    }
}

/// Appends every character of `w` to `out`.
fn append_chars(out: &mut Vec<char>, w: &Vec<char>)
    ensures
        final(out)@ =~= old(out)@ + w@,
{
    let m = w.len();
    let mut j: usize = 0;
    while j < m
        invariant
            j <= m,
            m == w@.len(),
            out@ =~= old(out)@ + w@.subrange(0, j as int),
        decreases m - j,
    {
        out.push(w[j]);
        proof {
            assert(old(out)@ + w@.subrange(0, j as int + 1) =~= (old(out)@ + w@.subrange(
                0,
                j as int,
            )).push(w@[j as int]));
        }
        j = j + 1;
    }
    proof {
        assert(w@.subrange(0, m as int) =~= w@);
    }
}

/// A copy of a character vector.
fn copy_chars(v: &Vec<char>) -> (r: Vec<char>)
    ensures
        r@ =~= v@,
{
    let n = v.len();
    let mut r: Vec<char> = Vec::new();
    let mut i: usize = 0;
    while i < n
        invariant
            i <= n,
            n == v@.len(),
            r@ =~= v@.subrange(0, i as int),
        decreases n - i,
    {
        r.push(v[i]);
        i = i + 1;
    }
    proof {
        assert(v@.subrange(0, n as int) =~= v@);
    }
    r
}

/// Drops each word that immediately repeats the previous one.
pub fn dedup_words(ws: &Vec<Vec<char>>) -> (r: Vec<Vec<char>>)
    ensures
        views_of(r@) =~~= spec_dedup(views_of(ws@)),
{
    let mut out: Vec<Vec<char>> = Vec::new();
    let n = ws.len();
    let mut i: usize = 0;
    proof {
        assert(views_of(ws@).subrange(0, 0) =~~= Seq::<Seq<char>>::empty());
    }
    while i < n
        invariant
            i <= n,
            n == ws@.len(),
            views_of(out@) =~~= dedup_scan(views_of(ws@).subrange(0, i as int), Seq::empty()),
        decreases n - i,
    {
        proof {
            lemma_dedup_scan_push(
                views_of(ws@).subrange(0, i as int),
                views_of(ws@)[i as int],
                Seq::empty(),
            );
            assert(views_of(ws@).subrange(0, i as int + 1) =~~= views_of(ws@).subrange(
                0,
                i as int,
            ).push(views_of(ws@)[i as int]));
        }
        let keep: bool = if out.len() > 0 {
            !chars_eq(&out[out.len() - 1], &ws[i])
        } else {
            true
        };
        if keep {
            let w = copy_chars(&ws[i]);
            out.push(w);
            proof {
                assert(views_of(out@) =~~= views_of(out@.drop_last()).push(out@.last()@));
            }
        }
        i = i + 1;
    }
    proof {
        assert(views_of(ws@).subrange(0, n as int) =~~= views_of(ws@));
    }
    out
}

/// The words joined by single spaces.
pub open spec fn spec_join(ws: Seq<Seq<char>>) -> Seq<char>
    decreases ws.len(),
{
    if ws.len() == 0 {
        Seq::empty()
    } else if ws.len() == 1 {
        ws[0]
    } else {
        spec_join(ws.drop_last()) + seq![' '] + ws.last()
    }
}

/// Joins words with single spaces between them.
pub fn join_words(ws: &Vec<Vec<char>>) -> (r: Vec<char>)
    ensures
        r@ =~= spec_join(views_of(ws@)),
{
    let mut out: Vec<char> = Vec::new();
    let n = ws.len();
    let mut i: usize = 0;
    while i < n
        invariant
            i <= n,
            n == ws@.len(),
            out@ =~= spec_join(views_of(ws@).subrange(0, i as int)),
        decreases n - i,
    {
        if i > 0 {
            out.push(' ');
        }
        append_chars(&mut out, &ws[i]);
        proof {
            let pre = views_of(ws@).subrange(0, i as int + 1);
            assert(pre.drop_last() =~~= views_of(ws@).subrange(0, i as int));
            assert(pre.last() == ws@[i as int]@);
            if i == 0 {
                assert(spec_join(pre) == pre[0]);
                assert(Seq::<char>::empty() + ws@[0]@ =~= ws@[0]@);
            }
        }
        i = i + 1;
    }
    proof {
        assert(views_of(ws@).subrange(0, n as int) =~~= views_of(ws@));
    }
    out
}

/// The sequence with leading whitespace removed.
pub open spec fn trim_front(s: Seq<char>) -> Seq<char>
    decreases s.len(),
{
    if s.len() > 0 && is_space(s[0]) {
        trim_front(s.drop_first())
    } else {
        s
    }
}

/// The sequence with trailing whitespace removed.
pub open spec fn trim_back(s: Seq<char>) -> Seq<char>
    decreases s.len(),
{
    if s.len() > 0 && is_space(s.last()) {
        trim_back(s.drop_last())
    } else {
        s
    }
}

/// The sequence with whitespace removed from both ends.
pub open spec fn spec_trim(s: Seq<char>) -> Seq<char> {
    trim_back(trim_front(s))
}

/// Removes whitespace from both ends.
pub fn trim_chars(v: &Vec<char>) -> (r: Vec<char>)
    ensures
        r@ =~= spec_trim(v@),
{
    let n = v.len();
    let mut start: usize = 0;
    proof {
        assert(v@.skip(0) =~= v@);
    }
    while start < n && is_space_char(v[start])
        invariant
            start <= n,
            n == v@.len(),
            trim_front(v@) =~= trim_front(v@.skip(start as int)),
        decreases n - start,
    {
        proof {
            assert(v@.skip(start as int)[0] == v@[start as int]);
            assert(v@.skip(start as int).drop_first() =~= v@.skip(start as int + 1));
        }
        start = start + 1;
    }
    proof {
        if start < n {
            assert(v@.skip(start as int)[0] == v@[start as int]);
        }
        assert(trim_front(v@) =~= v@.skip(start as int));
    }
    let mut end: usize = n;
    proof {
        assert(v@.subrange(start as int, n as int) =~= v@.skip(start as int));
    }
    while end > start && is_space_char(v[end - 1])
        invariant
            start <= end <= n,
            n == v@.len(),
            trim_back(v@.skip(start as int)) =~= trim_back(v@.subrange(start as int, end as int)),
        decreases end,
    {
        proof {
            let cur = v@.subrange(start as int, end as int);
            assert(cur.last() == v@[end as int - 1]);
            assert(cur.drop_last() =~= v@.subrange(start as int, end as int - 1));
        }
        end = end - 1;
    }
    proof {
        let cur = v@.subrange(start as int, end as int);
        if end > start {
            assert(cur.last() == v@[end as int - 1]);
        }
        assert(trim_back(cur) =~= cur);
    }
    let mut r: Vec<char> = Vec::new();
    let mut i: usize = start;
    while i < end
        invariant
            start <= i <= end <= n,
            n == v@.len(),
            r@ =~= v@.subrange(start as int, i as int),
        decreases end - i,
    {
        r.push(v[i]);
        proof {
            assert(v@.subrange(start as int, i as int + 1) =~= v@.subrange(
                start as int,
                i as int,
            ).push(v@[i as int]));
        }
        i = i + 1;
    }
    r
}

pub open spec fn is_opener(c: char) -> bool {
    c == '[' || c == '{' || c == '('
}

pub open spec fn closer_of(c: char) -> char {
    if c == '[' {
        ']'
    } else if c == '{' {
        '}'
    } else {
        ')'
    }
}

/// The index of the first occurrence of `c`, or `-1` when absent.
pub open spec fn first_index(s: Seq<char>, c: char) -> int
    decreases s.len(),
{
    if s.len() == 0 {
        -1
    } else if s[0] == c {
        0
    } else {
        let r = first_index(s.drop_first(), c);
        if r < 0 {
            -1
        } else {
            r + 1
        }
    }
}

proof fn lemma_first_index_props(s: Seq<char>, c: char)
    ensures
        -1 <= first_index(s, c) < s.len(),
        first_index(s, c) >= 0 ==> s[first_index(s, c)] == c && forall|j: int|
            0 <= j < first_index(s, c) ==> s[j] != c,
        first_index(s, c) == -1 ==> forall|j: int| 0 <= j < s.len() ==> s[j] != c,
    decreases s.len(),
{
    if s.len() > 0 && s[0] != c {
        lemma_first_index_props(s.drop_first(), c);
        assert(forall|j: int| 1 <= j < s.len() ==> s[j] == s.drop_first()[j - 1]);
    }
}

proof fn lemma_first_index_at(s: Seq<char>, c: char, j: int)
    requires
        0 <= j < s.len(),
        s[j] == c,
        forall|k: int| 0 <= k < j ==> s[k] != c,
    ensures
        first_index(s, c) == j,
    decreases s.len(),
{
    if j > 0 {
        lemma_first_index_at(s.drop_first(), c, j - 1);
    }
}

/// The text with bracketed spans removed: at each opener, everything through
/// the first matching closer goes; an opener with no closer is kept as it
/// stands.
pub open spec fn spec_strip(s: Seq<char>) -> Seq<char>
    decreases s.len(),
{
    if s.len() == 0 {
        Seq::empty()
    } else if is_opener(s[0]) {
        let j = first_index(s.drop_first(), closer_of(s[0]));
        if j < 0 {
            seq![s[0]] + spec_strip(s.drop_first())
        } else {
            let k = if j + 2 <= s.len() {
                j + 2
            } else {
                s.len() as int
            };
            spec_strip(s.skip(k))
        }
    } else {
        seq![s[0]] + spec_strip(s.drop_first())
    }
}

/// The first occurrence of `c` at or after `start`, scanning forward.
fn find_char_from(v: &Vec<char>, start: usize, c: char) -> (r: Option<usize>)
    requires
        start <= v@.len(),
    ensures
        match r {
            Some(k) => start <= k < v@.len() && v@[k as int] == c && first_index(
                v@.skip(start as int),
                c,
            ) == k - start,
            None => first_index(v@.skip(start as int), c) == -1,
        },
{
    let n = v.len();
    let mut i: usize = start;
    while i < n
        invariant
            start <= i <= n,
            n == v@.len(),
            forall|j: int| start <= j < i ==> v@[j] != c,
        decreases n - i,
    {
        if v[i] == c {
            proof {
                let s = v@.skip(start as int);
                assert(forall|k: int| 0 <= k < s.len() ==> s[k] == v@[k + start]);
                lemma_first_index_at(s, c, i - start);
            }
            return Some(i);
        }
        i = i + 1;
    }
    proof {
        let s = v@.skip(start as int);
        assert(forall|k: int| 0 <= k < s.len() ==> s[k] == v@[k + start]);
        lemma_first_index_props(s, c);
        if first_index(s, c) >= 0 {
            assert(s[first_index(s, c)] == c);
        }
    }
    None
}

fn opener_check(c: char) -> (r: bool)
    ensures
        r == is_opener(c),
{
    c == '[' || c == '{' || c == '('
}

fn closer_for(c: char) -> (r: char)
    ensures
        r == closer_of(c),
{
    if c == '[' {
        ']'
    } else if c == '{' {
        '}'
    } else {
        ')'
    }
}

/// Removes every bracketed span, scanning left to right.
pub fn strip_brackets(v: &Vec<char>) -> (r: Vec<char>)
    ensures
        r@ =~= spec_strip(v@),
{
    let mut out: Vec<char> = Vec::new();
    let n = v.len();
    let mut i: usize = 0;
    proof {
        assert(v@.skip(0) =~= v@);
        assert(Seq::<char>::empty() + spec_strip(v@) =~= spec_strip(v@));
    }
    while i < n
        invariant
            i <= n,
            n == v@.len(),
            spec_strip(v@) =~= out@ + spec_strip(v@.skip(i as int)),
        decreases n - i,
    {
        let c = v[i];
        proof {
            assert(v@.skip(i as int).len() == n - i);
            assert(v@.skip(i as int)[0] == v@[i as int]);
            assert(v@.skip(i as int).drop_first() =~= v@.skip(i as int + 1));
        }
        if opener_check(c) {
            let want = closer_for(c);
            match find_char_from(v, i + 1, want) {
                Some(k) => {
                    proof {
                        let s = v@.skip(i as int);
                        let j = first_index(s.drop_first(), closer_of(s[0]));
                        assert(first_index(v@.skip(i as int + 1), want) == k - i - 1);
                        assert(j == k - i - 1);
                        assert(j + 2 == k + 1 - i <= s.len());
                        assert(s.skip(j + 2) =~= v@.skip(k + 1));
                        assert(spec_strip(s) == spec_strip(v@.skip(k + 1)));
                    }
                    i = k + 1;
                },
                None => {
                    proof {
                        let s = v@.skip(i as int);
                        assert(spec_strip(s) == seq![s[0]] + spec_strip(s.drop_first()));
                        assert(out@ + spec_strip(s) =~= out@.push(v@[i as int]) + spec_strip(
                            v@.skip(i as int + 1),
                        ));
                    }
                    out.push(c);
                    i = i + 1;
                },
            }
        } else {
            proof {
                let s = v@.skip(i as int);
                assert(spec_strip(s) == seq![s[0]] + spec_strip(s.drop_first()));
                assert(out@ + spec_strip(s) =~= out@.push(v@[i as int]) + spec_strip(
                    v@.skip(i as int + 1),
                ));
            }
            out.push(c);
            i = i + 1;
        }
    }
    proof {
        assert(v@.skip(n as int) =~= Seq::<char>::empty());
        assert(out@ + Seq::<char>::empty() =~= out@);
    }
    out
}

/// The whole post-processing pipeline on a character sequence: words are
/// split and deduplicated, rejoined with single spaces, bracketed spans
/// removed, and whitespace normalized once more.
pub open spec fn spec_post_process(s: Seq<char>) -> Seq<char> {
    spec_join(spec_words(spec_strip(spec_join(spec_dedup(spec_words(s))))))
}

/// Cleans up recognized text: trims and collapses whitespace, drops words
/// that immediately repeat, and removes bracketed annotations.
pub fn post_process_transcription(text: &str) -> (r: String)
    ensures
        r@ == spec_post_process(text@),
{
    let chars = str_to_chars(text);
    let words = split_words(&chars);
    let deduped = dedup_words(&words);
    let joined = join_words(&deduped);
    let stripped = strip_brackets(&joined);
    let words_again = split_words(&stripped);
    let joined_again = join_words(&words_again);
    chars_to_string(&joined_again)
}

/// A word as the splitter produces it: no whitespace inside.
pub open spec fn space_free(w: Seq<char>) -> bool {
    forall|i: int| 0 <= i < w.len() ==> !is_space(#[trigger] w[i])
}

/// Words fit to join: each nonempty and whitespace-free.
pub open spec fn good_words(ws: Seq<Seq<char>>) -> bool {
    forall|i: int| 0 <= i < ws.len() ==> (#[trigger] ws[i]).len() > 0 && space_free(ws[i])
}

proof fn lemma_words_scan_good(s: Seq<char>, acc: (Seq<Seq<char>>, Seq<char>))
    requires
        good_words(acc.0),
        space_free(acc.1),
    ensures
        good_words(words_scan(s, acc).0),
        space_free(words_scan(s, acc).1),
    decreases s.len(),
{
    if s.len() > 0 {
        let acc2 = words_step(acc, s[0]);
        if is_space(s[0]) {
            if acc.1.len() > 0 {
                assert(good_words(acc.0.push(acc.1))) by {
                    assert(forall|i: int|
                        0 <= i < acc.0.len() ==> acc.0.push(acc.1)[i] == #[trigger] acc.0[i]);
                    assert(acc.0.push(acc.1)[acc.0.len() as int] == acc.1);
                }
            }
        } else {
            assert(space_free(acc.1.push(s[0]))) by {
                assert(forall|i: int|
                    0 <= i < acc.1.len() ==> acc.1.push(s[0])[i] == #[trigger] acc.1[i]);
                assert(acc.1.push(s[0])[acc.1.len() as int] == s[0]);
            }
        }
        lemma_words_scan_good(s.drop_first(), acc2);
    }
}

/// Every word the splitter produces is nonempty and whitespace-free.
proof fn lemma_words_good(s: Seq<char>)
    ensures
        good_words(spec_words(s)),
{
    lemma_words_scan_good(s, (Seq::empty(), Seq::empty()));
    let f = words_scan(s, (Seq::empty(), Seq::empty()));
    if f.1.len() > 0 {
        assert(good_words(f.0.push(f.1))) by {
            assert(forall|i: int| 0 <= i < f.0.len() ==> f.0.push(f.1)[i] == #[trigger] f.0[i]);
            assert(f.0.push(f.1)[f.0.len() as int] == f.1);
        }
    }
}

/// Joining good words yields normalized text: non-space at both ends and
/// never two adjacent whitespace characters.
proof fn lemma_join_normalized(ws: Seq<Seq<char>>)
    requires
        ws.len() > 0,
        good_words(ws),
    ensures
        ({
            let r = spec_join(ws);
            &&& r.len() > 0
            &&& !is_space(r.first())
            &&& !is_space(r.last())
            &&& forall|i: int| 0 < i < r.len() ==> !(is_space(#[trigger] r[i - 1]) && is_space(r[i]))
        }),
    decreases ws.len(),
{
    let r = spec_join(ws);
    if ws.len() == 1 {
        assert(r == ws[0]);
        assert(space_free(ws[0]));
    } else {
        assert(good_words(ws.drop_last())) by {
            assert(forall|i: int|
                0 <= i < ws.len() - 1 ==> ws.drop_last()[i] == #[trigger] ws[i]);
        }
        lemma_join_normalized(ws.drop_last());
        let a = spec_join(ws.drop_last());
        let w = ws.last();
        assert(w.len() > 0 && space_free(w));
        assert(r == a + seq![' '] + w);
        assert(r.len() == a.len() + 1 + w.len());
        assert(r.first() == a.first());
        assert(r.last() == w.last());
        assert(!is_space(w.last()));
        assert forall|i: int| 0 < i < r.len() implies !(is_space(#[trigger] r[i - 1]) && is_space(
            r[i],
        )) by {
            if i < a.len() {
                assert(r[i - 1] == a[i - 1] && r[i] == a[i]);
            } else if i == a.len() {
                assert(r[i - 1] == a[a.len() - 1]);
                assert(!is_space(a.last()));
            } else if i == a.len() + 1 {
                assert(r[i] == w[0]);
                assert(!is_space(w[0]));
            } else {
                assert(r[i - 1] == w[i - 1 - a.len() - 1] && r[i] == w[i - a.len() - 1]);
                assert(!is_space(w[i - a.len() - 1]));
            }
        }
    }
}

/// The post-processed text is normalized: no leading or trailing
/// whitespace, and no run of two or more whitespace characters — space runs
/// collapse to single spaces.
pub proof fn lemma_post_process_normalized(s: Seq<char>)
    ensures
        ({
            let r = spec_post_process(s);
            &&& r.len() > 0 ==> !is_space(r.first()) && !is_space(r.last())
            &&& forall|i: int| 0 < i < r.len() ==> !(is_space(#[trigger] r[i - 1]) && is_space(r[i]))
        }),
{
    let stripped = spec_strip(spec_join(spec_dedup(spec_words(s))));
    let ws = spec_words(stripped);
    lemma_words_good(stripped);
    if ws.len() == 0 {
        assert(spec_join(ws).len() == 0);
    } else {
        lemma_join_normalized(ws);
    }
}

} // verus!
