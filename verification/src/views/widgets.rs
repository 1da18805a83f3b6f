//! What the editor's widgets show and decide.
use vstd::prelude::*;

use crate::l10n::languages::eng_us::{english_tl, English};
use crate::l10n::{language_codes, Language, Term, L10N};
use crate::states::projects::ProjectPreviewState;

verus! {

/// The sentence that describes the project that files would open.
pub struct ProjectPreviewWidget;

impl ProjectPreviewWidget {
    /// The sentence for a preview, in the current language.
    pub fn text(project: &ProjectPreviewState, l10n: &L10N) -> (r: String)
        ensures
            r@ == english_tl(
                Term::ProjectPreviewText {
                    has_audio: project.audio() is Some,
                    has_textgrid: project.textgrid() is Some,
                },
            ),
    {
        l10n.tl(
            &Term::ProjectPreviewText {
                has_audio: project.audio_file_path().is_some(),
                has_textgrid: project.textgrid_file_path().is_some(),
            },
        )
    }
}

/// The choice of the interface's language.
pub struct LanguageSelector;

impl LanguageSelector {
    /// The choices offered: for each code one can choose that names a
    /// language, that language's code and name.
    pub fn options(l: &L10N) -> (r: Vec<(&'static str, &'static str)>)
        ensures
            r@.len() == language_codes().len(),
            forall|i: int|
                0 <= i < r@.len() ==> (#[trigger] r@[i]).0@ == English.spec_code()
                    && r@[i].1@ == English.spec_display_name(),
    {
        let codes = L10N::available_language_codes();
        let mut r: Vec<(&'static str, &'static str)> = Vec::new();
        let mut i: usize = 0;
        while i < codes.len()
            invariant
                codes@.len() == language_codes().len(),
                forall|j: int| 0 <= j < codes@.len() ==> #[trigger] codes@[j]@ == language_codes()[j],
                i <= codes@.len(),
                r@.len() == i,
                forall|j: int|
                    0 <= j < r@.len() ==> (#[trigger] r@[j]).0@ == English.spec_code()
                        && r@[j].1@ == English.spec_display_name(),
            decreases codes@.len() - i,
        {
            proof {
                reveal_strlit("eng");
            }
            match l.get_language(codes[i]) {
                Some(language) => {
                    r.push((language.code(), language.display_name()));
                },
                None => {
                    assert(false);
                },
            }
            i = i + 1;
        }
        r
    }

    /// The language to set after a choice: the chosen code where it differs
    /// from the current language's code, else nothing.
    pub fn language_to_set(l: &L10N, chosen: &'static str) -> (r: Option<&'static str>)
        ensures
            r is Some <==> chosen@ != English.spec_code(),
            r is Some ==> r->Some_0 == chosen,
    {
        let current = l.current_language().code();
        let cs = crate::textbuf::chars_of(current);
        if crate::textbuf::str_eq_chars(chosen, cs.as_slice()) {
            None
        } else {
            Some(chosen)
        }
    }
}

} // verus!
