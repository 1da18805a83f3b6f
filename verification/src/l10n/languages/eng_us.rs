//! American English.
use vstd::prelude::*;

use crate::l10n::{
    dot_list, lemma_dot_list_mentions, lemma_lacks, lemma_mentions_at, lemma_mentions_piece, lemma_mentions_within, mentions, push_dot_list, Language, Term,
};
use crate::textbuf::{push_str, string_from};

verus! {

/// American English.
#[derive(Clone, Copy, PartialEq, Eq, Structural)]
pub struct English;

/// What a project preview names, in English.
pub open spec fn english_preview(has_audio: bool, has_textgrid: bool) -> Seq<char> {
    if has_audio && has_textgrid {
        "an audio file and a TextGrid file"@
    } else if has_audio {
        "an audio file"@
    } else if has_textgrid {
        "a TextGrid file"@
    } else {
        "nothing"@
    }
}

/// The English hint to drop files, for the list of audio extensions.
pub open spec fn english_drop_hint(list: Seq<char>) -> Seq<char> {
    "Drop an audio file ("@ + list + ") and/or a TextGrid file here."@
}

/// The English line for a file that is loading.
pub open spec fn english_loading(thing: Seq<char>, path: Seq<char>) -> Seq<char> {
    "Loading "@ + thing + ": "@ + path
}

/// The English line for a file that failed to load.
pub open spec fn english_failed(thing: Seq<char>, path: Seq<char>, error: Seq<char>) -> Seq<char> {
    "Failed to load "@ + thing + ": "@ + path + "\n"@ + error
}

/// The English wording of a term.
pub open spec fn english_tl(term: Term) -> Seq<char> {
    match term {
        Term::About => "About"@,
        Term::Settings => "Settings"@,
        Term::Appearance => "Appearance"@,
        Term::DropHintText { supported_audio_extensions } => english_drop_hint(
            dot_list(supported_audio_extensions@),
        ),
        Term::ProjectPreviewText { has_audio, has_textgrid } => "A project of "@
            + english_preview(has_audio, has_textgrid) + " will be opened."@,
        Term::LoadingThing { thing, path } => english_loading(thing@, path@),
        Term::FailedToLoadThing { thing, path, error } => english_failed(thing@, path@, error@),
        Term::GridderProject { name } => match name {
            Some(n) => "Gridder Project - "@ + n@,
            None => "Gridder Project"@,
        },
        Term::Theme => "Theme"@,
    }
}

fn english_preview_exec(has_audio: bool, has_textgrid: bool) -> (r: &'static str)
    ensures
        r@ == english_preview(has_audio, has_textgrid),
{
    if has_audio && has_textgrid {
        "an audio file and a TextGrid file"
    } else if has_audio {
        "an audio file"
    } else if has_textgrid {
        "a TextGrid file"
    } else {
        "nothing"
    }
}

impl Language for English {
    open spec fn spec_code(&self) -> Seq<char> {
        "eng-US"@
    }

    open spec fn spec_display_name(&self) -> Seq<char> {
        "English (American)"@
    }

    open spec fn spec_tl(&self, term: Term) -> Seq<char> {
        english_tl(term)
    }

    fn code(&self) -> (r: &'static str) {
        "eng-US"
    }

    fn display_name(&self) -> (r: &'static str) {
        "English (American)"
    }

    fn tl(&self, term: &Term) -> (r: String) {
        match term {
            Term::About => string_from("About"),
            Term::Settings => string_from("Settings"),
            Term::Appearance => string_from("Appearance"),
            Term::DropHintText { supported_audio_extensions } => {
                let mut s = string_from("Drop an audio file (");
                push_dot_list(&mut s, supported_audio_extensions);
                push_str(&mut s, ") and/or a TextGrid file here.");
                s
            },
            Term::ProjectPreviewText { has_audio, has_textgrid } => {
                let mut s = string_from("A project of ");
                push_str(&mut s, english_preview_exec(*has_audio, *has_textgrid));
                push_str(&mut s, " will be opened.");
                s
            },
            Term::LoadingThing { thing, path } => {
                let mut s = string_from("Loading ");
                push_str(&mut s, thing);
                push_str(&mut s, ": ");
                push_str(&mut s, path.as_str());
                s
            },
            Term::FailedToLoadThing { thing, path, error } => {
                let mut s = string_from("Failed to load ");
                push_str(&mut s, thing);
                push_str(&mut s, ": ");
                push_str(&mut s, path.as_str());
                push_str(&mut s, "\n");
                push_str(&mut s, error.as_str());
                s
            },
            Term::GridderProject { name } => match name {
                Some(n) => {
                    let mut s = string_from("Gridder Project - ");
                    push_str(&mut s, n.as_str());
                    s
                },
                None => string_from("Gridder Project"),
            },
            Term::Theme => string_from("Theme"),
        }
    }
}

/// The English project preview names an audio file exactly when the files
/// hold one, and a TextGrid file exactly when they hold one: `audio` occurs in
/// the sentence only then, and so does `TextGrid`.
pub proof fn law_english_preview_names_files(has_audio: bool, has_textgrid: bool)
    ensures
        mentions(english_tl(Term::ProjectPreviewText { has_audio, has_textgrid }), "an audio file"@)
            == has_audio,
        mentions(english_tl(Term::ProjectPreviewText { has_audio, has_textgrid }), "audio"@)
            == has_audio,
        mentions(english_tl(Term::ProjectPreviewText { has_audio, has_textgrid }), "a TextGrid file"@)
            == has_textgrid,
        mentions(english_tl(Term::ProjectPreviewText { has_audio, has_textgrid }), "TextGrid"@)
            == has_textgrid,
{
    reveal_strlit("A project of ");
    reveal_strlit(" will be opened.");
    reveal_strlit("an audio file and a TextGrid file");
    reveal_strlit("an audio file");
    reveal_strlit("a TextGrid file");
    reveal_strlit("nothing");
    reveal_strlit("audio");
    reveal_strlit("TextGrid");
    let head = "A project of "@;
    let tail = " will be opened."@;
    let mid = english_preview(has_audio, has_textgrid);
    let s = english_tl(Term::ProjectPreviewText { has_audio, has_textgrid });
    assert(s == head + mid + tail);
    assert(head.len() == 13);
    if has_audio {
        lemma_mentions_at(s, 13, "an audio file"@);
        lemma_mentions_at(s, 16, "audio"@);
    } else {
        assert(forall|j: int| 0 <= j < s.len() ==> s[j] != 'u');
        assert("an audio file"@[4] == 'u');
        lemma_lacks(s, "an audio file"@, 4);
        lemma_lacks(s, "audio"@, 1);
    }
    if has_textgrid {
        if has_audio {
            lemma_mentions_at(s, 31, "a TextGrid file"@);
            lemma_mentions_at(s, 33, "TextGrid"@);
        } else {
            lemma_mentions_at(s, 13, "a TextGrid file"@);
            lemma_mentions_at(s, 15, "TextGrid"@);
        }
    } else {
        assert(forall|j: int| 0 <= j < s.len() ==> s[j] != 'T');
        lemma_lacks(s, "a TextGrid file"@, 2);
        lemma_lacks(s, "TextGrid"@, 0);
    }
}

/// The English hint to drop files names every supported audio extension,
/// after its dot.
pub proof fn law_english_drop_hint_names_extensions(exts: &'static [&'static str], i: int)
    requires
        0 <= i < exts@.len(),
    ensures
        mentions(english_tl(Term::DropHintText { supported_audio_extensions: exts }), seq!['.'] + exts@[i]@),
{
    lemma_dot_list_mentions(exts@, i);
    lemma_mentions_within("Drop an audio file ("@, dot_list(exts@), ") and/or a TextGrid file here."@, seq!['.'] + exts@[i]@);
}

/// The English line for a file that is loading names the file's kind and its
/// path; the line for one that failed to load names its kind, its path and
/// the error.
pub proof fn law_english_loading_lines_name_file(thing: &'static str, path: String, error: String)
    ensures
        mentions(english_tl(Term::LoadingThing { thing, path }), thing@),
        mentions(english_tl(Term::LoadingThing { thing, path }), path@),
        mentions(english_tl(Term::FailedToLoadThing { thing, path, error }), thing@),
        mentions(english_tl(Term::FailedToLoadThing { thing, path, error }), path@),
        mentions(english_tl(Term::FailedToLoadThing { thing, path, error }), error@),
{
    let e = Seq::<char>::empty();
    let l = english_tl(Term::LoadingThing { thing, path });
    assert(l =~= "Loading "@ + thing@ + (": "@ + path@));
    lemma_mentions_piece("Loading "@, thing@, ": "@ + path@);
    assert(l =~= ("Loading "@ + thing@ + ": "@) + path@ + e);
    lemma_mentions_piece("Loading "@ + thing@ + ": "@, path@, e);
    let f = english_tl(Term::FailedToLoadThing { thing, path, error });
    assert(f =~= "Failed to load "@ + thing@ + (": "@ + path@ + "\n"@ + error@));
    lemma_mentions_piece("Failed to load "@, thing@, ": "@ + path@ + "\n"@ + error@);
    assert(f =~= ("Failed to load "@ + thing@ + ": "@) + path@ + ("\n"@ + error@));
    lemma_mentions_piece("Failed to load "@ + thing@ + ": "@, path@, "\n"@ + error@);
    assert(f =~= ("Failed to load "@ + thing@ + ": "@ + path@ + "\n"@) + error@ + e);
    lemma_mentions_piece("Failed to load "@ + thing@ + ": "@ + path@ + "\n"@, error@, e);
}

} // verus!
