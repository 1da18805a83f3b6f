//! A preview of the project that hovered or dropped files would open.
use vstd::prelude::*;

use crate::l10n::languages::eng_us::english_tl;
use crate::l10n::{Term, L10N};
use crate::states::projects::{found_in, path_view, HoveredOrDroppedFile, ProjectPreviewState};

verus! {

/// What a set of files would open: an audio file, a TextGrid file, or both.
pub struct ProjectPreview {
    audio_file_path: Option<String>,
    textgrid_file_path: Option<String>,
    is_from_dropping: bool,
}

impl ProjectPreview {
    /// The audio path.
    pub closed spec fn audio(&self) -> Option<Seq<char>> {
        path_view(self.audio_file_path)
    }

    /// The TextGrid path.
    pub closed spec fn textgrid(&self) -> Option<Seq<char>> {
        path_view(self.textgrid_file_path)
    }

    /// Whether the files were dropped, not only hovering.
    pub closed spec fn dropped(&self) -> bool {
        self.is_from_dropping
    }

    /// What the files would open, as [`ProjectPreviewState::try_from_files`]
    /// decides it.
    pub fn try_from_files(files: Vec<HoveredOrDroppedFile>, is_from_dropping: bool) -> (r: Option<
        ProjectPreview,
    >)
        ensures
            match found_in(files@) {
                Some(found) => if found.0 is Some || found.1 is Some {
                    r is Some && r->Some_0.audio() == found.0 && r->Some_0.textgrid() == found.1
                        && r->Some_0.dropped() == is_from_dropping
                } else {
                    r is None
                },
                None => r is None,
            },
    {
        match ProjectPreviewState::try_from_files(files, is_from_dropping) {
            Some(state) => {
                let audio_file_path = match state.audio_file_path() {
                    Some(p) => Some(crate::textbuf::string_from(p)),
                    None => None,
                };
                let textgrid_file_path = match state.textgrid_file_path() {
                    Some(p) => Some(crate::textbuf::string_from(p)),
                    None => None,
                };
                Some(
                    ProjectPreview {
                        audio_file_path,
                        textgrid_file_path,
                        is_from_dropping: state.is_from_dropping(),
                    },
                )
            },
            None => None,
        }
    }

    /// The sentence that describes what would be opened.
    pub fn text(&self, l10n: &L10N) -> (r: String)
        ensures
            r@ == english_tl(
                Term::ProjectPreviewText {
                    has_audio: self.audio() is Some,
                    has_textgrid: self.textgrid() is Some,
                },
            ),
    {
        l10n.tl(
            &Term::ProjectPreviewText {
                has_audio: self.audio_file_path.is_some(),
                has_textgrid: self.textgrid_file_path.is_some(),
            },
        )
    }
}

} // verus!
