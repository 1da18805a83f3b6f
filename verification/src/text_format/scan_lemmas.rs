//! Facts about how the tokenizer reads the text that the stringifier writes.
use vstd::prelude::*;

use std::ops::Range;

use crate::text_format::escape::{escape, law_unescape_escape, quoted, unescape};
use crate::text_format::tokenizer::{
    find_gt, is_digit, is_space, next_token, number_end, scan, text_close, ScanMode, Token,
    TokenFlag,
};

verus! {

/// `s` stands in `cs` at position `p`.
pub open spec fn at<T>(cs: Seq<T>, p: int, s: Seq<T>) -> bool {
    0 <= p && p + s.len() <= cs.len() && cs.subrange(p, p + s.len()) == s
}

/// Splitting a piece that stands at `p` into its two parts.
pub proof fn lemma_at_split<T>(cs: Seq<T>, p: int, x: Seq<T>, y: Seq<T>)
    requires
        at(cs, p, x + y),
    ensures
        at(cs, p, x),
        at(cs, p + x.len(), y),
{
    let whole = cs.subrange(p, p + (x + y).len());
    assert(whole == x + y);
    assert(cs.subrange(p, p + x.len()) =~= whole.subrange(0, x.len() as int));
    assert(whole.subrange(0, x.len() as int) =~= x);
    assert(cs.subrange(p + x.len(), p + x.len() + y.len()) =~= whole.subrange(
        x.len() as int,
        (x + y).len() as int,
    ));
    assert(whole.subrange(x.len() as int, (x + y).len() as int) =~= y);
}

/// The character at an index of a piece that stands at `p`.
pub proof fn lemma_at_index<T>(cs: Seq<T>, p: int, s: Seq<T>, k: int)
    requires
        at(cs, p, s),
        0 <= k < s.len(),
    ensures
        cs[p + k] == s[k],
{
    assert(cs.subrange(p, p + s.len())[k] == cs[p + k]);
}

/// How one character between tokens changes the scanning mode; `None` where
/// it could start a token.
pub open spec fn skip_step(c: char, m: ScanMode) -> Option<ScanMode> {
    match m {
        ScanMode::Comment => if c == '\r' || c == '\n' {
            Some(ScanMode::Between(true))
        } else {
            Some(ScanMode::Comment)
        },
        ScanMode::Label => if c == ']' {
            Some(ScanMode::Between(true))
        } else {
            Some(ScanMode::Label)
        },
        ScanMode::Between(b) => if (b && (is_digit(c) || c == '+' || c == '-' || c == '"')) || c
            == '<' {
            None
        } else if c == '!' {
            Some(ScanMode::Comment)
        } else if c == '[' {
            Some(ScanMode::Label)
        } else if is_space(c) {
            Some(ScanMode::Between(true))
        } else {
            Some(ScanMode::Between(false))
        },
    }
}

/// The scanning mode after the characters `s[k..]`, if none of them starts a token.
pub open spec fn skip_from(s: Seq<char>, k: int, m: ScanMode) -> Option<ScanMode>
    decreases s.len() - k,
{
    if k < 0 || k >= s.len() {
        Some(m)
    } else {
        match skip_step(s[k], m) {
            Some(m2) => skip_from(s, k + 1, m2),
            None => None,
        }
    }
}

/// Scanning over characters that start no token only changes the mode.
pub proof fn lemma_scan_skip(cs: Seq<char>, i: int, s: Seq<char>, k: int, m: ScanMode)
    requires
        at(cs, i, s),
        0 <= k <= s.len(),
        skip_from(s, k, m) is Some,
    ensures
        scan(cs, i + k, m) == scan(cs, i + s.len(), skip_from(s, k, m)->Some_0),
    decreases s.len() - k,
{
    if k < s.len() {
        lemma_at_index(cs, i, s, k);
        let m2 = skip_step(s[k], m)->Some_0;
        lemma_scan_skip(cs, i, s, k + 1, m2);
    }
}

/// A character that starts nothing and ends no label or comment.
pub open spec fn plain(c: char) -> bool {
    !is_digit(c) && c != '+' && c != '-' && c != '"' && c != '<' && c != '!' && c != '['
}

/// Whether every character of a text is plain.
pub open spec fn all_plain(s: Seq<char>) -> bool {
    forall|k: int| 0 <= k < s.len() ==> plain(#[trigger] s[k])
}

/// After plain characters, a token may start exactly when the last was a space.
pub proof fn lemma_plain_run(s: Seq<char>, k: int, b: bool)
    requires
        all_plain(s),
        0 <= k < s.len(),
    ensures
        skip_from(s, k, ScanMode::Between(b)) == Some(ScanMode::Between(is_space(s.last()))),
    decreases s.len() - k,
{
    assert(plain(s[k]));
    if k + 1 < s.len() {
        lemma_plain_run(s, k + 1, is_space(s[k]));
    }
}

/// Skipping a concatenation skips one part, then the other.
pub proof fn lemma_skip_concat(a: Seq<char>, b: Seq<char>, k: int, m: ScanMode)
    requires
        0 <= k <= a.len(),
    ensures
        skip_from(a + b, k, m) == match skip_from(a, k, m) {
            Some(m1) => skip_from(b, 0, m1),
            None => None,
        },
    decreases a.len() - k,
{
    if k < a.len() {
        assert((a + b)[k] == a[k]);
        match skip_step(a[k], m) {
            Some(m2) => lemma_skip_concat(a, b, k + 1, m2),
            None => {},
        }
    } else {
        lemma_skip_shift(a, b, 0, m);
    }
}

proof fn lemma_skip_shift(a: Seq<char>, b: Seq<char>, k: int, m: ScanMode)
    requires
        0 <= k <= b.len(),
    ensures
        skip_from(a + b, a.len() + k, m) == skip_from(b, k, m),
    decreases b.len() - k,
{
    if k < b.len() {
        assert((a + b)[a.len() + k] == b[k]);
        match skip_step(b[k], m) {
            Some(m2) => lemma_skip_shift(a, b, k + 1, m2),
            None => {},
        }
    }
}

// ---------------------------------------------------------------------------
// Tokens.

/// Whether a text is exactly one number token: digits, or a sign and digits,
/// optionally followed by `.` and digits.
pub open spec fn number_text(t: Seq<char>) -> bool {
    t.len() > 0 && ((is_digit(t[0]) && number_end(t, 1, false) == t.len()) || ((t[0] == '+'
        || t[0] == '-') && t.len() > 1 && is_digit(t[1]) && number_end(t, 2, false) == t.len()))
}

proof fn lemma_number_end_at(cs: Seq<char>, i: int, t: Seq<char>, a: int, dot: bool)
    requires
        at(cs, i, t),
        0 <= a <= t.len(),
        i + t.len() < cs.len(),
        is_space(cs[i + t.len()]),
        number_end(t, a, dot) == t.len(),
    ensures
        number_end(cs, i + a, dot) == i + t.len(),
    decreases t.len() - a,
{
    if a < t.len() {
        lemma_at_index(cs, i, t, a);
        if is_digit(t[a]) {
            lemma_number_end_at(cs, i, t, a + 1, dot);
        } else {
            assert(t[a] == '.' && !dot && a + 1 < t.len() && is_digit(t[a + 1]));
            lemma_at_index(cs, i, t, a + 1);
            lemma_number_end_at(cs, i, t, a + 2, true);
        }
    }
}

/// A number text followed by a space or line feed is read as one number token.
pub proof fn lemma_number_token(cs: Seq<char>, i: int, t: Seq<char>)
    requires
        at(cs, i, t),
        number_text(t),
        i + t.len() < cs.len(),
        is_space(cs[i + t.len()]),
    ensures
        scan(cs, i, ScanMode::Between(true)) == (
            Some(Ok::<Token, crate::text_format::tokenizer::TokenizeError>(Token::Number(Range { start: i as usize, end: (i + t.len()) as usize }))),
            i + t.len(),
        ),
{
    lemma_at_index(cs, i, t, 0);
    if is_digit(t[0]) {
        lemma_number_end_at(cs, i, t, 1, false);
    } else {
        lemma_at_index(cs, i, t, 1);
        lemma_number_end_at(cs, i, t, 2, false);
    }
}

proof fn lemma_text_close_at(cs: Seq<char>, a: int, t: Seq<char>)
    requires
        at(cs, a, escape(t) + seq!['"']),
        a + escape(t).len() + 1 < cs.len(),
        cs[a + escape(t).len() + 1] != '"',
    ensures
        text_close(cs, a) == Some(a + escape(t).len()),
    decreases t.len(),
{
    let e = escape(t);
    if t.len() == 0 {
        lemma_at_index(cs, a, e + seq!['"'], 0);
    } else {
        let rest = t.drop_first();
        let er = escape(rest);
        if t[0] == '"' {
            assert(e + seq!['"'] =~= seq!['"', '"'] + (er + seq!['"']));
            lemma_at_index(cs, a, e + seq!['"'], 0);
            lemma_at_index(cs, a, e + seq!['"'], 1);
            lemma_at_split(cs, a, seq!['"', '"'], er + seq!['"']);
            lemma_text_close_at(cs, a + 2, rest);
        } else {
            assert(e + seq!['"'] =~= seq![t[0]] + (er + seq!['"']));
            lemma_at_index(cs, a, e + seq!['"'], 0);
            lemma_at_split(cs, a, seq![t[0]], er + seq!['"']);
            lemma_text_close_at(cs, a + 1, rest);
        }
    }
}

/// A quoted text followed by anything but a quotation mark is read as one
/// text token, whose inside unescapes to the text.
pub proof fn lemma_text_token(cs: Seq<char>, i: int, t: Seq<char>)
    requires
        at(cs, i, quoted(t)),
        i + quoted(t).len() < cs.len(),
        cs[i + quoted(t).len()] != '"',
    ensures
        scan(cs, i, ScanMode::Between(true)) == (
            Some(Ok::<Token, crate::text_format::tokenizer::TokenizeError>(Token::Text(Range { start: (i + 1) as usize, end: (i + 1 + escape(t).len()) as usize }))),
            i + quoted(t).len(),
        ),
        unescape(cs.subrange(i + 1, i + 1 + escape(t).len())) == t,
{
    let e = escape(t);
    assert(quoted(t) =~= seq!['"'] + (e + seq!['"']));
    lemma_at_index(cs, i, quoted(t), 0);
    lemma_at_split(cs, i, seq!['"'], e + seq!['"']);
    lemma_text_close_at(cs, i + 1, t);
    lemma_at_split(cs, i + 1, e, seq!['"']);
    law_unescape_escape(t);
}

/// The flag `<exists>` is read as the flag token.
pub proof fn lemma_exists_token(cs: Seq<char>, i: int)
    requires
        at(cs, i, "<exists>"@),
    ensures
        scan(cs, i, ScanMode::Between(true)) == (
            Some(Ok::<Token, crate::text_format::tokenizer::TokenizeError>(Token::Flag(TokenFlag::Exists))),
            i + 8,
        ),
{
    reveal_strlit("<exists>");
    reveal_strlit("exists");
    let f = "<exists>"@;
    assert(f =~= seq!['<', 'e', 'x', 'i', 's', 't', 's', '>']);
    lemma_at_index(cs, i, f, 0);
    lemma_at_index(cs, i, f, 1);
    lemma_at_index(cs, i, f, 2);
    lemma_at_index(cs, i, f, 3);
    lemma_at_index(cs, i, f, 4);
    lemma_at_index(cs, i, f, 5);
    lemma_at_index(cs, i, f, 6);
    lemma_at_index(cs, i, f, 7);
    assert(find_gt(cs, i + 7) == Some(i + 7));
    assert(find_gt(cs, i + 6) == Some(i + 7));
    assert(find_gt(cs, i + 5) == Some(i + 7));
    assert(find_gt(cs, i + 4) == Some(i + 7));
    assert(find_gt(cs, i + 3) == Some(i + 7));
    assert(find_gt(cs, i + 2) == Some(i + 7));
    assert(find_gt(cs, i + 1) == Some(i + 7));
    assert(cs.subrange(i + 1, i + 7) =~= "exists"@);
}

} // verus!
