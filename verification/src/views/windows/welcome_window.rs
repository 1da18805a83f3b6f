//! What the welcome window shows.
use vstd::prelude::*;

use crate::l10n::languages::eng_us::{english_drop_hint, english_tl};
use crate::l10n::{dot_list, Term, L10N};
use crate::states::projects::{supported_audio_extensions, ProjectPreviewState};

verus! {

/// What the middle of the welcome window shows: the project that dropped
/// files open, the preview of hovering files, or the hint to drop files.
pub enum WelcomeView {
    OpenProject,
    Preview(String),
    DropHint(String),
}

/// What the middle of the welcome window shows, for the files over it, if
/// any.
pub fn welcome_view(l: &L10N, preview: Option<&ProjectPreviewState>) -> (r: WelcomeView)
    ensures
        match preview {
            Some(p) => if p.dropped() {
                r is OpenProject
            } else {
                r matches WelcomeView::Preview(t) && t@ == english_tl(
                    Term::ProjectPreviewText {
                        has_audio: p.audio() is Some,
                        has_textgrid: p.textgrid() is Some,
                    },
                )
            },
            None => r matches WelcomeView::DropHint(t) && t@ == english_drop_hint(".wav, .mp3"@),
        },
{
    match preview {
        Some(p) => {
            if p.is_from_dropping() {
                WelcomeView::OpenProject
            } else {
                WelcomeView::Preview(
                    l.tl(
                        &Term::ProjectPreviewText {
                            has_audio: p.audio_file_path().is_some(),
                            has_textgrid: p.textgrid_file_path().is_some(),
                        },
                    ),
                )
            }
        },
        None => {
            let exts = supported_audio_extensions();
            let t = l.tl(&Term::DropHintText { supported_audio_extensions: exts });
            proof {
                reveal_strlit("wav");
                reveal_strlit("mp3");
                reveal_strlit(".wav, .mp3");
                let e = exts@;
                assert(e.drop_last().len() == 1);
                assert(dot_list(e.drop_last()) == seq!['.'] + e[0]@);
                assert(dot_list(e) =~= ".wav, .mp3"@);
            }
            WelcomeView::DropHint(t)
        },
    }
}

} // verus!
