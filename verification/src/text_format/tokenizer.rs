//! Splitting text-format input into tokens: numbers, quoted texts and flags.
//!
//! Positions inside tokens are character indices into the input; the ranges
//! in errors are byte offsets into the UTF-8 input.
use vstd::prelude::*;
use vstd::string::StringSliceAdditionalSpecFns;
use vstd::utf8::encode_utf8;

use std::ops::Range;

use crate::text_format::offsets::{byte_offset, byte_pos};
use crate::textbuf::chars_of;

verus! {

/// A token: the character range of a number or of the inside of a quoted
/// text, or a flag.
#[derive(Debug, PartialEq, Eq)]
pub enum Token {
    Number(Range<usize>),
    Text(Range<usize>),
    Flag(TokenFlag),
}

/// The flags `<exists>` and `<absent>`.
#[derive(Debug, Clone, Copy, PartialEq, Eq, Structural)]
pub enum TokenFlag {
    Exists,
    Absent,
}

/// The kinds of tokens.
#[derive(Debug, Clone, Copy, PartialEq, Eq, Structural)]
pub enum TokenKind {
    Number,
    Text,
    Flag,
}

/// Why the input cannot be split into tokens; the range is in bytes.
#[derive(Debug, PartialEq, Eq)]
pub enum TokenizeError {
    UnknwonFlag { range: Range<usize> },
    PartialToken { range: Range<usize> },
}

/// The kind of a token.
pub open spec fn spec_kind(t: Token) -> TokenKind {
    match t {
        Token::Number(_) => TokenKind::Number,
        Token::Text(_) => TokenKind::Text,
        Token::Flag(_) => TokenKind::Flag,
    }
}

impl Token {
    /// The kind of this token.
    pub fn kind(&self) -> (k: TokenKind)
        ensures
            k == spec_kind(*self),
    {
        match self {
            Token::Number(_) => TokenKind::Number,
            Token::Text(_) => TokenKind::Text,
            Token::Flag(_) => TokenKind::Flag,
        }
    }
}

/// The name of a token kind.
pub open spec fn kind_name(k: TokenKind) -> Seq<char> {
    match k {
        TokenKind::Number => "Number"@,
        TokenKind::Text => "Text"@,
        TokenKind::Flag => "Flag"@,
    }
}

impl TokenKind {
    /// The name of this kind, as messages show it.
    pub fn name(&self) -> (s: &'static str)
        ensures
            s@ == kind_name(*self),
    {
        match self {
            TokenKind::Number => "Number",
            TokenKind::Text => "Text",
            TokenKind::Flag => "Flag",
        }
    }
}

/// Whether a character is an ASCII digit.
pub open spec fn is_digit(c: char) -> bool {
    '0' <= c && c <= '9'
}

/// Whether a character separates tokens: space, tab, carriage return or line feed.
pub open spec fn is_space(c: char) -> bool {
    c == ' ' || c == '\t' || c == '\r' || c == '\n'
}

/// The end of a number's digits from `i`: digits, and at most one `.`
/// that a digit follows.
pub open spec fn number_end(cs: Seq<char>, i: int, after_dot: bool) -> int
    decreases cs.len() - i,
{
    if 0 <= i < cs.len() {
        if is_digit(cs[i]) {
            number_end(cs, i + 1, after_dot)
        } else if cs[i] == '.' && !after_dot && i + 1 < cs.len() && is_digit(cs[i + 1]) {
            number_end(cs, i + 2, true)
        } else {
            i
        }
    } else {
        i
    }
}

/// The index of the quotation mark that closes a text whose inside starts at
/// `i` (inside, a quotation mark is written twice), if any.
pub open spec fn text_close(cs: Seq<char>, i: int) -> Option<int>
    decreases cs.len() - i,
{
    if 0 <= i < cs.len() {
        if cs[i] == '"' {
            if i + 1 < cs.len() && cs[i + 1] == '"' {
                text_close(cs, i + 2)
            } else {
                Some(i)
            }
        } else {
            text_close(cs, i + 1)
        }
    } else {
        None
    }
}

/// The index of the first `>` at or after `i`, if any.
pub open spec fn find_gt(cs: Seq<char>, i: int) -> Option<int>
    decreases cs.len() - i,
{
    if 0 <= i < cs.len() {
        if cs[i] == '>' {
            Some(i)
        } else {
            find_gt(cs, i + 1)
        }
    } else {
        None
    }
}

/// The state between tokens: whether a token may start here, or inside a
/// `!` comment, or inside a `[...]` label.
pub enum ScanMode {
    Between(bool),
    Comment,
    Label,
}

/// The byte range `a..b` of character positions `i..j`.
pub open spec fn bytes_of(cs: Seq<char>, i: int, j: int) -> Range<usize> {
    Range { start: byte_pos(cs, i) as usize, end: byte_pos(cs, j) as usize }
}

/// The outcome of reading one token from index `i` in mode `m`: the token
/// (or error, or `None` at the end of the input), and the index after it.
pub open spec fn scan(cs: Seq<char>, i: int, m: ScanMode) -> (
    Option<Result<Token, TokenizeError>>,
    int,
)
    decreases cs.len() - i,
{
    if i < 0 || i >= cs.len() {
        match m {
            ScanMode::Label => (
                Some(
                    Err(
                        TokenizeError::PartialToken {
                            range: Range {
                                start: (byte_pos(cs, cs.len() as int) - 1) as usize,
                                end: byte_pos(cs, cs.len() as int) as usize,
                            },
                        },
                    ),
                ),
                cs.len() as int,
            ),
            _ => (None, cs.len() as int),
        }
    } else {
        let c = cs[i];
        match m {
            ScanMode::Comment => if c == '\r' || c == '\n' {
                scan(cs, i + 1, ScanMode::Between(true))
            } else {
                scan(cs, i + 1, ScanMode::Comment)
            },
            ScanMode::Label => if c == ']' {
                scan(cs, i + 1, ScanMode::Between(true))
            } else {
                scan(cs, i + 1, ScanMode::Label)
            },
            ScanMode::Between(can_start) => if can_start && is_digit(c) {
                let e = number_end(cs, i + 1, false);
                (Some(Ok(Token::Number(Range { start: i as usize, end: e as usize }))), e)
            } else if (c == '+' || c == '-') && can_start && i + 1 < cs.len() && is_digit(
                cs[i + 1],
            ) {
                let e = number_end(cs, i + 2, false);
                (Some(Ok(Token::Number(Range { start: i as usize, end: e as usize }))), e)
            } else if c == '"' && can_start {
                match text_close(cs, i + 1) {
                    Some(k) => (
                        Some(Ok(Token::Text(Range { start: (i + 1) as usize, end: k as usize }))),
                        k + 1,
                    ),
                    None => (
                        Some(
                            Err(
                                TokenizeError::PartialToken {
                                    range: bytes_of(cs, i, cs.len() as int),
                                },
                            ),
                        ),
                        cs.len() as int,
                    ),
                }
            } else if c == '<' {
                match find_gt(cs, i + 1) {
                    Some(k) => if cs.subrange(i + 1, k) == "exists"@ {
                        (Some(Ok(Token::Flag(TokenFlag::Exists))), k + 1)
                    } else if cs.subrange(i + 1, k) == "absent"@ {
                        (Some(Ok(Token::Flag(TokenFlag::Absent))), k + 1)
                    } else {
                        (
                            Some(Err(TokenizeError::UnknwonFlag { range: bytes_of(cs, i + 1, k) })),
                            i + 1,
                        )
                    },
                    None => (
                        Some(
                            Err(
                                TokenizeError::PartialToken {
                                    range: bytes_of(cs, i + 1, cs.len() as int),
                                },
                            ),
                        ),
                        i + 1,
                    ),
                }
            } else if c == '!' {
                scan(cs, i + 1, ScanMode::Comment)
            } else if c == '[' {
                scan(cs, i + 1, ScanMode::Label)
            } else if is_space(c) {
                scan(cs, i + 1, ScanMode::Between(true))
            } else {
                scan(cs, i + 1, ScanMode::Between(false))
            },
        }
    }
}

/// The next token from index `i`: scanning starts where a token may start.
pub open spec fn next_token(cs: Seq<char>, i: int) -> (Option<Result<Token, TokenizeError>>, int) {
    scan(cs, i, ScanMode::Between(true))
}

/// Whether the character range of a token lies within `len` characters.
pub open spec fn token_in_bounds(t: Option<Result<Token, TokenizeError>>, len: nat) -> bool {
    match t {
        Some(Ok(Token::Number(r))) => r.start <= r.end <= len,
        Some(Ok(Token::Text(r))) => r.start <= r.end <= len,
        _ => true,
    }
}

/// Reads tokens from text-format input.
pub struct Tokenizer {
    chars: Vec<char>,
    cursor: usize,
    byte_len: usize,
}

fn char_is_digit(c: char) -> (r: bool)
    ensures
        r == is_digit(c),
{
    '0' <= c && c <= '9'
}

impl Tokenizer {
    /// The characters of the input.
    pub closed spec fn input(&self) -> Seq<char> {
        self.chars@
    }

    /// The index of the next character to read.
    pub closed spec fn position(&self) -> int {
        self.cursor as int
    }

    /// The tokenizer's internal consistency.
    pub closed spec fn wf(&self) -> bool {
        &&& self.cursor <= self.chars@.len()
        &&& self.byte_len == encode_utf8(self.chars@).len()
    }

    /// A tokenizer at the start of `buf`.
    pub fn new(buf: &str) -> (t: Self)
        ensures
            t.wf(),
            t.input() == buf@,
            t.position() == 0,
    {
        let chars = chars_of(buf);
        let bytes = buf.as_bytes();
        let byte_len = bytes.len();
        Tokenizer { chars, cursor: 0, byte_len }
    }

    fn number_end(&self, i: usize, after_dot: bool) -> (e: usize)
        requires
            self.wf(),
            i <= self.chars@.len(),
        ensures
            e == number_end(self.chars@, i as int, after_dot),
            i <= e <= self.chars@.len(),
        decreases self.chars@.len() - i,
    {
        let n = self.chars.len();
        if i < n {
            if char_is_digit(self.chars[i]) {
                self.number_end(i + 1, after_dot)
            } else if self.chars[i] == '.' && !after_dot && i + 1 < n && char_is_digit(
                self.chars[i + 1],
            ) {
                self.number_end(i + 2, true)
            } else {
                i
            }
        } else {
            i
        }
    }

    fn text_close(&self, i: usize) -> (r: Option<usize>)
        requires
            self.wf(),
            i <= self.chars@.len(),
        ensures
            match text_close(self.chars@, i as int) {
                Some(k) => r == Some(k as usize) && i <= k < self.chars@.len(),
                None => r is None,
            },
        decreases self.chars@.len() - i,
    {
        let n = self.chars.len();
        if i < n {
            if self.chars[i] == '"' {
                if i + 1 < n && self.chars[i + 1] == '"' {
                    self.text_close(i + 2)
                } else {
                    Some(i)
                }
            } else {
                self.text_close(i + 1)
            }
        } else {
            None
        }
    }

    fn find_gt(&self, i: usize) -> (r: Option<usize>)
        requires
            self.wf(),
            i <= self.chars@.len(),
        ensures
            match find_gt(self.chars@, i as int) {
                Some(k) => r == Some(k as usize) && i <= k < self.chars@.len(),
                None => r is None,
            },
        decreases self.chars@.len() - i,
    {
        if i < self.chars.len() {
            if self.chars[i] == '>' {
                Some(i)
            } else {
                self.find_gt(i + 1)
            }
        } else {
            None
        }
    }

    fn range_is(&self, a: usize, b: usize, word: &str) -> (r: bool)
        requires
            self.wf(),
            a <= b <= self.chars@.len(),
        ensures
            r == (self.chars@.subrange(a as int, b as int) == word@),
    {
        let w = chars_of(word);
        if b - a != w.len() {
            return false;
        }
        let mut k: usize = 0;
        while k < w.len()
            invariant
                self.wf(),
                a <= b <= self.chars@.len(),
                b - a == w@.len(),
                w@ == word@,
                k <= w@.len(),
                forall|j: int| 0 <= j < k ==> self.chars@[a + j] == w@[j],
            decreases w@.len() - k,
        {
            if self.chars[a + k] != w[k] {
                assert(self.chars@.subrange(a as int, b as int)[k as int] != word@[k as int]);
                return false;
            }
            k = k + 1;
        }
        assert(self.chars@.subrange(a as int, b as int) =~= word@);
        true
    }

    fn bytes(&self, i: usize, j: usize) -> (r: Range<usize>)
        requires
            self.wf(),
            i <= self.chars@.len(),
            j <= self.chars@.len(),
        ensures
            r == bytes_of(self.chars@, i as int, j as int),
    {
        let a = byte_offset(self.chars.as_slice(), self.byte_len, i);
        let b = byte_offset(self.chars.as_slice(), self.byte_len, j);
        a..b
    }

    /// The token from index `i` on, and the index after it, without moving.
    pub fn scan_from(&self, i: usize) -> (r: (Option<Result<Token, TokenizeError>>, usize))
        requires
            self.wf(),
            i <= self.input().len(),
        ensures
            r.0 == next_token(self.input(), i as int).0,
            r.1 == next_token(self.input(), i as int).1,
            r.1 <= self.input().len(),
            token_in_bounds(r.0, self.input().len()),
    {
        let n = self.chars.len();
        let mut k = i;
        let mut mode = ScanMode::Between(true);
        while k < n
            invariant
                self.wf(),
                n == self.chars@.len(),
                k <= n,
                scan(self.chars@, i as int, ScanMode::Between(true)) == scan(self.chars@, k as int, mode),
            decreases n - k,
        {
            let c = self.chars[k];
            match mode {
                ScanMode::Comment => {
                    if c == '\r' || c == '\n' {
                        mode = ScanMode::Between(true);
                    }
                    k = k + 1;
                },
                ScanMode::Label => {
                    if c == ']' {
                        mode = ScanMode::Between(true);
                    }
                    k = k + 1;
                },
                ScanMode::Between(can_start) => {
                    if can_start && char_is_digit(c) {
                        let e = self.number_end(k + 1, false);
                        return (Some(Ok(Token::Number(k..e))), e);
                    } else if (c == '+' || c == '-') && can_start && k + 1 < n && char_is_digit(
                        self.chars[k + 1],
                    ) {
                        let e = self.number_end(k + 2, false);
                        return (Some(Ok(Token::Number(k..e))), e);
                    } else if c == '"' && can_start {
                        match self.text_close(k + 1) {
                            Some(close) => {
                                return (Some(Ok(Token::Text((k + 1)..close))), close + 1);
                            },
                            None => {
                                let range = self.bytes(k, n);
                                return (Some(Err(TokenizeError::PartialToken { range })), n);
                            },
                        }
                    } else if c == '<' {
                        match self.find_gt(k + 1) {
                            Some(close) => {
                                if self.range_is(k + 1, close, "exists") {
                                    return (Some(Ok(Token::Flag(TokenFlag::Exists))), close + 1);
                                } else if self.range_is(k + 1, close, "absent") {
                                    return (Some(Ok(Token::Flag(TokenFlag::Absent))), close + 1);
                                } else {
                                    let range = self.bytes(k + 1, close);
                                    return (Some(Err(TokenizeError::UnknwonFlag { range })), k + 1);
                                }
                            },
                            None => {
                                let range = self.bytes(k + 1, n);
                                return (Some(Err(TokenizeError::PartialToken { range })), k + 1);
                            },
                        }
                    } else if c == '!' {
                        mode = ScanMode::Comment;
                    } else if c == '[' {
                        mode = ScanMode::Label;
                    } else if c == ' ' || c == '\t' || c == '\r' || c == '\n' {
                        mode = ScanMode::Between(true);
                    } else {
                        mode = ScanMode::Between(false);
                    }
                    k = k + 1;
                },
            }
        }
        match mode {
            ScanMode::Label => {
                let total = self.byte_len;
                proof {
                    assert(self.chars@.take(n as int) =~= self.chars@);
                }
                if total == 0 {
                    assert(false);
                }
                (Some(Err(TokenizeError::PartialToken { range: (total - 1)..total })), n)
            },
            _ => (None, n),
        }
    }

    /// The next token, leaving the tokenizer where it was.
    pub fn peek(&self) -> (r: Option<Result<Token, TokenizeError>>)
        requires
            self.wf(),
        ensures
            r == next_token(self.input(), self.position()).0,
            token_in_bounds(r, self.input().len()),
    {
        self.scan_from(self.cursor).0
    }

    /// The unescaped text of the characters `a..b` (the inside of a text token).
    pub fn text_of(&self, a: usize, b: usize) -> (r: String)
        requires
            self.wf(),
            a <= b <= self.input().len(),
        ensures
            r@ == crate::text_format::escape::unescape(self.input().subrange(a as int, b as int)),
    {
        crate::text_format::escape::unescape_range(self.chars.as_slice(), a, b)
    }

    /// The characters `a..b` (the text of a number token).
    pub fn raw_of(&self, a: usize, b: usize) -> (r: String)
        requires
            self.wf(),
            a <= b <= self.input().len(),
        ensures
            r@ == self.input().subrange(a as int, b as int),
    {
        let mut s = String::new();
        let mut i = a;
        while i < b
            invariant
                self.wf(),
                a <= i <= b <= self.input().len(),
                s@ == self.input().subrange(a as int, i as int),
            decreases b - i,
        {
            crate::textbuf::push_char(&mut s, self.chars[i]);
            i = i + 1;
            assert(s@ =~= self.input().subrange(a as int, i as int));
        }
        s
    }

    /// Whether the characters `a..b` might be an octal literal.
    pub fn might_be_octal_at(&self, a: usize, b: usize) -> (r: bool)
        requires
            self.wf(),
            a <= b <= self.input().len(),
        ensures
            r == crate::text_format::integers::might_be_octal(self.input().subrange(a as int, b as int)),
    {
        crate::text_format::integers::might_be_octal_range(self.chars.as_slice(), a, b)
    }

    /// The `i64` of the characters `a..b`, if they denote one.
    pub fn i64_at(&self, a: usize, b: usize) -> (r: Option<i64>)
        requires
            self.wf(),
            a <= b <= self.input().len(),
        ensures
            r == crate::text_format::integers::parse_i64(self.input().subrange(a as int, b as int)),
    {
        crate::text_format::integers::parse_i64_range(self.chars.as_slice(), a, b)
    }

    /// Reads the next token, or `None` at the end of the input.
    pub fn next(&mut self) -> (r: Option<Result<Token, TokenizeError>>)
        requires
            old(self).wf(),
        ensures
            final(self).wf(),
            final(self).input() == old(self).input(),
            r == next_token(old(self).input(), old(self).position()).0,
            final(self).position() == next_token(old(self).input(), old(self).position()).1,
            token_in_bounds(r, old(self).input().len()),
    {
        let (r, k) = self.scan_from(self.cursor);
        self.cursor = k;
        r
    }
}

} // verus!
