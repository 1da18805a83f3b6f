//! Interface texts: the terms the interface shows and the languages that
//! word them.
use vstd::prelude::*;

pub mod languages;

use crate::l10n::languages::eng_us::{english_tl, English};
use crate::textbuf::{push_char, push_str};

verus! {

/// A term of the interface, with what it mentions.
pub enum Term {
    About,
    Settings,
    Appearance,
    DropHintText { supported_audio_extensions: &'static [&'static str] },
    ProjectPreviewText { has_audio: bool, has_textgrid: bool },
    LoadingThing { thing: &'static str, path: String },
    FailedToLoadThing { thing: &'static str, path: String, error: String },
    GridderProject { name: Option<String> },
    Theme,
}

/// A language of the interface: its code, its name, and how it words each
/// term.
pub trait Language: Send + Sync {
    /// The language's code.
    spec fn spec_code(&self) -> Seq<char>;

    /// The language's name, in itself.
    spec fn spec_display_name(&self) -> Seq<char>;

    /// The wording of a term.
    spec fn spec_tl(&self, term: Term) -> Seq<char>;

    /// The language's code.
    fn code(&self) -> (r: &'static str)
        ensures
            r@ == self.spec_code(),
    ;

    /// The language's name, in itself.
    fn display_name(&self) -> (r: &'static str)
        ensures
            r@ == self.spec_display_name(),
    ;

    /// The wording of a term.
    fn tl(&self, term: &Term) -> (r: String)
        ensures
            r@ == self.spec_tl(*term),
    ;
}

/// The extensions, each after a dot, separated by a comma and a space:
/// `.wav, .mp3`.
pub open spec fn dot_list(exts: Seq<&'static str>) -> Seq<char>
    decreases exts.len(),
{
    if exts.len() == 0 {
        Seq::empty()
    } else if exts.len() == 1 {
        seq!['.'] + exts[0]@
    } else {
        dot_list(exts.drop_last()) + seq![',', ' ', '.'] + exts.last()@
    }
}

/// Appends the extensions, each after a dot, separated by a comma and a space.
pub fn push_dot_list(s: &mut String, exts: &[&'static str])
    ensures
        final(s)@ == old(s)@ + dot_list(exts@),
{
    let ghost start = s@;
    let mut i: usize = 0;
    while i < exts.len()
        invariant
            i <= exts@.len(),
            s@ == start + dot_list(exts@.take(i as int)),
        decreases exts@.len() - i,
    {
        let ghost before = s@;
        if i > 0 {
            push_char(s, ',');
            push_char(s, ' ');
        }
        push_char(s, '.');
        push_str(s, exts[i]);
        proof {
            let t = exts@.take(i as int + 1);
            assert(t.drop_last() =~= exts@.take(i as int));
            assert(t.last() == exts@[i as int]);
            if i == 0 {
                assert(s@ =~= start + dot_list(t));
            } else {
                assert(s@ =~= before + seq![',', ' ', '.'] + exts@[i as int]@);
                assert(s@ =~= start + dot_list(t));
            }
        }
        i = i + 1;
    }
    assert(exts@.take(exts@.len() as int) =~= exts@);
}

/// The languages at hand.
#[derive(Clone, Copy)]
pub struct L {
    pub eng: English,
}

impl L {
    /// The languages at hand: American English.
    pub fn new() -> (r: Self)
        ensures
            r.eng == English,
    {
        L { eng: English }
    }
}

/// The interface's choice of language, which reads the texts of terms.
#[derive(Clone, Copy)]
pub struct L10N {
    current_language_index: usize,
    l: L,
}

/// The codes of the languages one can choose.
pub open spec fn language_codes() -> Seq<Seq<char>> {
    seq!["eng"@]
}

impl L10N {
    /// The index of the current language among the codes one can choose.
    pub closed spec fn index(&self) -> int {
        self.current_language_index as int
    }

    /// The choice's internal consistency: the index names a language.
    #[verifier::type_invariant]
    pub closed spec fn wf(&self) -> bool {
        self.current_language_index < 1
    }

    /// The first language: American English.
    pub fn new() -> (r: Self)
        ensures
            r.wf(),
            r.index() == 0,
    {
        L10N { current_language_index: 0, l: L::new() }
    }

    /// The codes of the languages one can choose.
    pub fn available_language_codes() -> (r: &'static [&'static str])
        ensures
            r@.len() == language_codes().len(),
            forall|i: int| 0 <= i < r@.len() ==> #[trigger] r@[i]@ == language_codes()[i],
    {
        let r: &'static [&'static str] = &["eng"];
        r
    }

    /// The code of the current language.
    pub fn current_language_code(&self) -> (r: &'static str)
        ensures
            0 <= self.index() < language_codes().len(),
            r@ == language_codes()[self.index()],
    {
        proof {
            use_type_invariant(self);
        }
        let codes = Self::available_language_codes();
        codes[self.current_language_index]
    }

    /// The language of a code one can choose, if it is one.
    pub fn get_language(&self, code: &'static str) -> (r: Option<&English>)
        ensures
            r is Some <==> code@ == "eng"@,
            r is Some ==> *r->Some_0 == English,
    {
        if crate::textbuf::str_eq_chars(code, &['e', 'n', 'g']) {
            proof {
                reveal_strlit("eng");
                assert(seq!['e', 'n', 'g'] =~= "eng"@);
            }
            Some(&self.l.eng)
        } else {
            proof {
                reveal_strlit("eng");
                assert(seq!['e', 'n', 'g'] =~= "eng"@);
            }
            None
        }
    }

    /// The current language.
    pub fn current_language(&self) -> (r: &English)
        ensures
            *r == English,
    {
        let code = self.current_language_code();
        match self.get_language(code) {
            Some(l) => l,
            None => {
                assert(false);
                &self.l.eng
            },
        }
    }

    /// The text of a term in the current language.
    pub fn tl(&self, term: &Term) -> (r: String)
        ensures
            r@ == english_tl(*term),
    {
        self.l.eng.tl(term)
    }
}

/// A handle that may change the choice of language.
#[derive(Clone)]
pub struct L10NMut(L10N);

impl L10NMut {
    /// The choice behind this handle.
    pub closed spec fn view_inner(&self) -> L10N {
        self.0
    }

    /// A handle on a new choice: American English.
    pub fn new() -> (r: Self)
        ensures
            r.view_inner().wf(),
            r.view_inner().index() == 0,
    {
        L10NMut(L10N::new())
    }

    /// The choice behind this handle.
    pub fn inner(&self) -> (r: &L10N)
        ensures
            *r == self.view_inner(),
    {
        &self.0
    }

    /// Chooses the language of a code; a code that names no language one can
    /// choose changes nothing.
    pub fn set_current_language(&mut self, language_code: &'static str)
        ensures
            (exists|i: int| 0 <= i < language_codes().len() && language_codes()[i] == language_code@)
                ==> language_codes()[final(self).view_inner().index()] == language_code@,
            !(exists|i: int| 0 <= i < language_codes().len() && language_codes()[i] == language_code@)
                ==> final(self).view_inner().index() == old(self).view_inner().index(),
    {
        let codes = L10N::available_language_codes();
        let mut i: usize = 0;
        while i < codes.len()
            invariant
                codes@.len() == language_codes().len(),
                forall|j: int| 0 <= j < codes@.len() ==> #[trigger] codes@[j]@ == language_codes()[j],
                i <= codes@.len(),
                forall|j: int| 0 <= j < i ==> language_codes()[j] != language_code@,
                *self == *old(self),
            decreases codes@.len() - i,
        {
            let code = codes[i];
            let v = crate::textbuf::chars_of(code);
            if crate::textbuf::str_eq_chars(language_code, v.as_slice()) {
                self.0.current_language_index = i;
                return;
            }
            i = i + 1;
        }
    }
}

/// Whether `w` occurs in `s`.
pub open spec fn mentions(s: Seq<char>, w: Seq<char>) -> bool {
    exists|p: int| 0 <= p && p + w.len() <= s.len() && #[trigger] s.subrange(p, p + w.len()) == w
}

/// `w` occurs in `s` where it stands at `p`.
pub proof fn lemma_mentions_at(s: Seq<char>, p: int, w: Seq<char>)
    requires
        0 <= p,
        p + w.len() <= s.len(),
        s.subrange(p, p + w.len()) =~= w,
    ensures
        mentions(s, w),
{
}

/// `w` does not occur in `s` where one of its characters occurs nowhere in `s`.
pub proof fn lemma_lacks(s: Seq<char>, w: Seq<char>, i: int)
    requires
        0 <= i < w.len(),
        forall|j: int| 0 <= j < s.len() ==> s[j] != w[i],
    ensures
        !mentions(s, w),
{
    if mentions(s, w) {
        let p = choose|p: int| 0 <= p && p + w.len() <= s.len() && #[trigger] s.subrange(p, p + w.len()) == w;
        assert(s.subrange(p, p + w.len())[i] == s[p + i]);
    }
}

/// `w` does not occur in `s` where two of its neighbouring characters never
/// stand side by side in `s`.
pub proof fn lemma_lacks_pair(s: Seq<char>, w: Seq<char>, i: int)
    requires
        0 <= i,
        i + 1 < w.len(),
        forall|j: int| 0 <= j < s.len() - 1 ==> !(#[trigger] s[j] == w[i] && s[j + 1] == w[i + 1]),
    ensures
        !mentions(s, w),
{
    if mentions(s, w) {
        let p = choose|p: int| 0 <= p && p + w.len() <= s.len() && #[trigger] s.subrange(p, p + w.len()) == w;
        assert(s.subrange(p, p + w.len())[i] == s[p + i]);
        assert(s.subrange(p, p + w.len())[i + 1] == s[p + i + 1]);
    }
}

/// What occurs in a piece occurs in any text around it.
pub proof fn lemma_mentions_within(a: Seq<char>, x: Seq<char>, b: Seq<char>, w: Seq<char>)
    requires
        mentions(x, w),
    ensures
        mentions(a + x + b, w),
{
    let p = choose|p: int| 0 <= p && p + w.len() <= x.len() && #[trigger] x.subrange(p, p + w.len()) == w;
    let s = a + x + b;
    let q: int = a.len() + p;
    assert(s.subrange(q, q + w.len()) =~= x.subrange(p, p + w.len()));
    lemma_mentions_at(s, q, w);
}

/// Each extension of the list occurs in it after its dot.
pub proof fn lemma_dot_list_mentions(exts: Seq<&'static str>, i: int)
    requires
        0 <= i < exts.len(),
    ensures
        mentions(dot_list(exts), seq!['.'] + exts[i]@),
    decreases exts.len(),
{
    let w = seq!['.'] + exts[i]@;
    if exts.len() == 1 {
        assert(dot_list(exts).subrange(0, w.len() as int) =~= w);
        lemma_mentions_at(dot_list(exts), 0, w);
    } else if i == exts.len() - 1 {
        let d = dot_list(exts.drop_last());
        let s = dot_list(exts);
        assert(s == d + seq![',', ' '] + w) by {
            assert(d + seq![',', ' ', '.'] + exts.last()@ =~= d + seq![',', ' '] + w);
        }
        let q: int = d.len() as int + 2;
        assert(s.subrange(q, q + w.len()) =~= w);
        lemma_mentions_at(s, q, w);
    } else {
        lemma_dot_list_mentions(exts.drop_last(), i);
        assert(exts.drop_last()[i] == exts[i]);
        lemma_mentions_within(
            Seq::<char>::empty(),
            dot_list(exts.drop_last()),
            seq![',', ' ', '.'] + exts.last()@,
            w,
        );
        assert(Seq::<char>::empty() + dot_list(exts.drop_last()) + (seq![',', ' ', '.'] + exts.last()@)
            =~= dot_list(exts));
    }
}

/// A piece occurs in any text around it.
pub proof fn lemma_mentions_piece(a: Seq<char>, x: Seq<char>, b: Seq<char>)
    ensures
        mentions(a + x + b, x),
{
    assert(x.subrange(0, x.len() as int) =~= x);
    lemma_mentions_at(x, 0, x);
    lemma_mentions_within(a, x, b, x);
}

} // verus!
