//! Quotation marks inside quoted texts are written twice.
use vstd::prelude::*;

use crate::textbuf::{chars_of, push_char};

verus! {

/// A text with every quotation mark written twice.
pub open spec fn escape(s: Seq<char>) -> Seq<char>
    decreases s.len(),
{
    if s.len() == 0 {
        seq![]
    } else if s[0] == '"' {
        seq!['"', '"'] + escape(s.drop_first())
    } else {
        seq![s[0]] + escape(s.drop_first())
    }
}

/// A text with each pair of quotation marks, taken from left to right,
/// replaced by one (as `str::replace("\"\"", "\"")` does).
pub open spec fn unescape(s: Seq<char>) -> Seq<char>
    decreases s.len(),
{
    if s.len() == 0 {
        seq![]
    } else if s.len() >= 2 && s[0] == '"' && s[1] == '"' {
        seq!['"'] + unescape(s.subrange(2, s.len() as int))
    } else {
        seq![s[0]] + unescape(s.drop_first())
    }
}

/// Escapes a text for the text format by writing every quotation mark twice.
pub fn escape_text(text: &str) -> (r: String)
    ensures
        r@ == escape(text@),
{
    let cs = chars_of(text);
    let mut out = String::new();
    let n = cs.len();
    let mut i: usize = 0;
    assert(cs@.subrange(0, n as int) =~= cs@);
    while i < n
        invariant
            n == cs@.len(),
            i <= n,
            escape(cs@) == out@ + escape(cs@.subrange(i as int, n as int)),
        decreases n - i,
    {
        let ghost tail = cs@.subrange(i as int, n as int);
        assert(tail.drop_first() =~= cs@.subrange(i + 1, n as int));
        let ghost before = out@;
        let c = cs[i];
        if c == '"' {
            push_char(&mut out, '"');
            push_char(&mut out, '"');
            assert(before + escape(tail) =~= out@ + escape(tail.drop_first()));
        } else {
            push_char(&mut out, c);
            assert(before + escape(tail) =~= out@ + escape(tail.drop_first()));
        }
        i = i + 1;
    }
    assert(cs@.subrange(n as int, n as int) =~= Seq::<char>::empty());
    assert(out@ + Seq::<char>::empty() =~= out@);
    out
}

/// The unescaped text of the characters `cs[a..b]`.
pub fn unescape_range(cs: &[char], a: usize, b: usize) -> (r: String)
    requires
        a <= b <= cs@.len(),
    ensures
        r@ == unescape(cs@.subrange(a as int, b as int)),
{
    let mut out = String::new();
    let mut i: usize = a;
    while i < b
        invariant
            a <= i <= b <= cs@.len(),
            unescape(cs@.subrange(a as int, b as int)) == out@ + unescape(
                cs@.subrange(i as int, b as int),
            ),
        decreases b - i,
    {
        let ghost tail = cs@.subrange(i as int, b as int);
        let ghost before = out@;
        if i + 1 < b && cs[i] == '"' && cs[i + 1] == '"' {
            assert(tail.subrange(2, tail.len() as int) =~= cs@.subrange(i + 2, b as int));
            push_char(&mut out, '"');
            assert(before + unescape(tail) =~= out@ + unescape(cs@.subrange(i + 2, b as int)));
            i = i + 2;
        } else {
            assert(tail.drop_first() =~= cs@.subrange(i + 1, b as int));
            push_char(&mut out, cs[i]);
            assert(before + unescape(tail) =~= out@ + unescape(cs@.subrange(i + 1, b as int)));
            i = i + 1;
        }
    }
    assert(cs@.subrange(b as int, b as int) =~= Seq::<char>::empty());
    assert(out@ + Seq::<char>::empty() =~= out@);
    out
}

/// Unescaping an escaped text gives the text back.
pub proof fn law_unescape_escape(s: Seq<char>)
    ensures
        unescape(escape(s)) == s,
    decreases s.len(),
{
    if s.len() > 0 {
        law_unescape_escape(s.drop_first());
        let e = escape(s);
        if s[0] == '"' {
            assert(e.subrange(2, e.len() as int) =~= escape(s.drop_first()));
        } else {
            assert(e.drop_first() =~= escape(s.drop_first()));
        }
        assert(s =~= seq![s[0]] + s.drop_first());
    }
}

/// A text inside quotation marks, its own quotation marks written twice.
pub open spec fn quoted(s: Seq<char>) -> Seq<char> {
    seq!['"'] + escape(s) + seq!['"']
}

/// Whether a text holds no quotation mark.
pub open spec fn no_quotes(s: Seq<char>) -> bool {
    forall|k: int| 0 <= k < s.len() ==> s[k] != '"'
}

/// A text without quotation marks is its own escaped form.
pub proof fn lemma_escape_no_quotes(s: Seq<char>)
    requires
        no_quotes(s),
    ensures
        escape(s) == s,
    decreases s.len(),
{
    if s.len() > 0 {
        assert(no_quotes(s.drop_first())) by {
            assert forall|k: int| 0 <= k < s.drop_first().len() implies s.drop_first()[k] != '"' by {
                assert(s.drop_first()[k] == s[k + 1]);
            }
        }
        lemma_escape_no_quotes(s.drop_first());
        assert(s[0] != '"');
        assert(seq![s[0]] + s.drop_first() =~= s);
    }
}

/// The number of quotation marks in a text.
pub open spec fn quote_count(s: Seq<char>) -> nat
    decreases s.len(),
{
    if s.len() == 0 {
        0
    } else {
        (if s[0] == '"' {
            1nat
        } else {
            0nat
        }) + quote_count(s.drop_first())
    }
}

/// Whether `i..j` is a maximal run of quotation marks in `r`.
pub open spec fn quote_run(r: Seq<char>, i: int, j: int) -> bool {
    &&& 0 <= i <= j <= r.len()
    &&& (i == 0 || r[i - 1] != '"')
    &&& (j == r.len() || r[j] != '"')
    &&& forall|k: int| i <= k < j ==> r[k] == '"'
}

proof fn lemma_escape_len(s: Seq<char>)
    ensures
        escape(s).len() == s.len() + quote_count(s),
    decreases s.len(),
{
    if s.len() > 0 {
        lemma_escape_len(s.drop_first());
    }
}

proof fn lemma_even_run(s: Seq<char>, i: int, j: int)
    requires
        quote_run(escape(s), i, j),
    ensures
        (j - i) % 2 == 0,
    decreases s.len(),
{
    let r = escape(s);
    if s.len() > 0 {
        let rest = escape(s.drop_first());
        if s[0] == '"' {
            assert(r == seq!['"', '"'] + rest);
            if i == 0 {
                if j < 2 {
                    assert(r[j] == '"');
                }
                assert forall|k: int| 0 <= k < j - 2 implies rest[k] == '"' by {
                    assert(r[k + 2] == rest[k]);
                }
                if j - 2 < rest.len() {
                    assert(r[j] == rest[j - 2]);
                }
                lemma_even_run(s.drop_first(), 0, j - 2);
            } else {
                assert(i >= 3) by {
                    if i <= 2 {
                        assert(r[i - 1] == '"');
                    }
                }
                assert(r[i - 1] == rest[i - 3]);
                assert forall|k: int| i - 2 <= k < j - 2 implies rest[k] == '"' by {
                    assert(r[k + 2] == rest[k]);
                }
                if j - 2 < rest.len() {
                    assert(r[j] == rest[j - 2]);
                }
                lemma_even_run(s.drop_first(), i - 2, j - 2);
            }
        } else {
            assert(r == seq![s[0]] + rest);
            if i == 0 {
                if j > 0 {
                    assert(r[0] == '"');
                }
            } else {
                if i >= 2 {
                    assert(r[i - 1] == rest[i - 2]);
                }
                assert forall|k: int| i - 1 <= k < j - 1 implies rest[k] == '"' by {
                    assert(r[k + 1] == rest[k]);
                }
                if j - 1 < rest.len() {
                    assert(r[j] == rest[j - 1]);
                }
                lemma_even_run(s.drop_first(), i - 1, j - 1);
            }
        }
    }
}

/// The escaped form of a text is longer by the number of its quotation
/// marks, and every maximal run of quotation marks in it has even length.
pub proof fn law_escape_shape(s: Seq<char>)
    ensures
        escape(s).len() == s.len() + quote_count(s),
        forall|i: int, j: int| quote_run(escape(s), i, j) ==> (j - i) % 2 == 0,
{
    lemma_escape_len(s);
    assert forall|i: int, j: int| quote_run(escape(s), i, j) implies (j - i) % 2 == 0 by {
        lemma_even_run(s, i, j);
    }
}

} // verus!
