//! Esperanto.
use vstd::prelude::*;

use crate::l10n::{
    dot_list, lemma_dot_list_mentions, lemma_lacks, lemma_lacks_pair, lemma_mentions_within, lemma_mentions_at, lemma_mentions_piece, mentions, push_dot_list, Language,
    Term,
};
use crate::textbuf::{push_str, string_from};

verus! {

/// Esperanto.
#[derive(Clone, Copy, PartialEq, Eq, Structural)]
pub struct Esperanto;

/// What a project preview names, in Esperanto.
pub open spec fn esperanto_preview(has_audio: bool, has_textgrid: bool) -> Seq<char> {
    if has_audio && has_textgrid {
        "sondosieron kaj TextGrid-dosieron"@
    } else if has_audio {
        "sondosieron"@
    } else if has_textgrid {
        "TextGrid-dosieron"@
    } else {
        "nenion"@
    }
}

/// The Esperanto wording of a term. The theme is worded `Lingvo` on purpose:
/// that is the word the editor shows for it.
pub open spec fn esperanto_tl(term: Term) -> Seq<char> {
    match term {
        Term::About => "Pri"@,
        Term::Settings => "Agordoj"@,
        Term::Appearance => "Aspekto"@,
        Term::DropHintText { supported_audio_extensions } => "Demetu sondosieron ("@ + dot_list(
            supported_audio_extensions@,
        ) + ") kaj/aŭ TextGrid-dosieron ĉi tien."@,
        Term::ProjectPreviewText { has_audio, has_textgrid } => "Projekto de "@
            + esperanto_preview(has_audio, has_textgrid) + " malfermiĝos."@,
        Term::LoadingThing { thing, path } => "Ŝargante "@ + thing@ + ": "@ + path@,
        Term::FailedToLoadThing { thing, path, error } => "malsukcesis ŝargi "@ + thing@ + ": "@
            + path@ + "\n"@ + error@,
        Term::GridderProject { name } => match name {
            Some(n) => "Projekto de Gridder - "@ + n@,
            None => "Projekto de Gridder"@,
        },
        Term::Theme => "Lingvo"@,
    }
}

fn esperanto_preview_exec(has_audio: bool, has_textgrid: bool) -> (r: &'static str)
    ensures
        r@ == esperanto_preview(has_audio, has_textgrid),
{
    if has_audio && has_textgrid {
        "sondosieron kaj TextGrid-dosieron"
    } else if has_audio {
        "sondosieron"
    } else if has_textgrid {
        "TextGrid-dosieron"
    } else {
        "nenion"
    }
}

impl Language for Esperanto {
    open spec fn spec_code(&self) -> Seq<char> {
        "epo"@
    }

    open spec fn spec_display_name(&self) -> Seq<char> {
        "Esperanto"@
    }

    open spec fn spec_tl(&self, term: Term) -> Seq<char> {
        esperanto_tl(term)
    }

    fn code(&self) -> (r: &'static str) {
        "epo"
    }

    fn display_name(&self) -> (r: &'static str) {
        "Esperanto"
    }

    fn tl(&self, term: &Term) -> (r: String) {
        match term {
            Term::About => string_from("Pri"),
            Term::Settings => string_from("Agordoj"),
            Term::Appearance => string_from("Aspekto"),
            Term::DropHintText { supported_audio_extensions } => {
                let mut s = string_from("Demetu sondosieron (");
                push_dot_list(&mut s, supported_audio_extensions);
                push_str(&mut s, ") kaj/aŭ TextGrid-dosieron ĉi tien.");
                s
            },
            Term::ProjectPreviewText { has_audio, has_textgrid } => {
                let mut s = string_from("Projekto de ");
                push_str(&mut s, esperanto_preview_exec(*has_audio, *has_textgrid));
                push_str(&mut s, " malfermiĝos.");
                s
            },
            Term::LoadingThing { thing, path } => {
                let mut s = string_from("Ŝargante ");
                push_str(&mut s, thing);
                push_str(&mut s, ": ");
                push_str(&mut s, path.as_str());
                s
            },
            Term::FailedToLoadThing { thing, path, error } => {
                let mut s = string_from("malsukcesis ŝargi ");
                push_str(&mut s, thing);
                push_str(&mut s, ": ");
                push_str(&mut s, path.as_str());
                push_str(&mut s, "\n");
                push_str(&mut s, error.as_str());
                s
            },
            Term::GridderProject { name } => match name {
                Some(n) => {
                    let mut s = string_from("Projekto de Gridder - ");
                    push_str(&mut s, n.as_str());
                    s
                },
                None => string_from("Projekto de Gridder"),
            },
            Term::Theme => string_from("Lingvo"),
        }
    }
}

/// The Esperanto project preview names an audio file (`sondosieron`)
/// exactly when the files hold one, and a TextGrid file exactly when they
/// hold one.
pub proof fn law_esperanto_preview_names_files(has_audio: bool, has_textgrid: bool)
    ensures
        mentions(esperanto_tl(Term::ProjectPreviewText { has_audio, has_textgrid }), "sondosieron"@)
            == has_audio,
        mentions(esperanto_tl(Term::ProjectPreviewText { has_audio, has_textgrid }), "TextGrid"@)
            == has_textgrid,
{
    reveal_strlit("Projekto de ");
    reveal_strlit(" malfermiĝos.");
    reveal_strlit("sondosieron kaj TextGrid-dosieron");
    reveal_strlit("sondosieron");
    reveal_strlit("TextGrid-dosieron");
    reveal_strlit("nenion");
    reveal_strlit("TextGrid");
    let s = esperanto_tl(Term::ProjectPreviewText { has_audio, has_textgrid });
    assert(s == "Projekto de "@ + esperanto_preview(has_audio, has_textgrid) + " malfermiĝos."@);
    if has_audio {
        lemma_mentions_at(s, 12, "sondosieron"@);
    } else {
        assert(forall|j: int| 0 <= j < s.len() - 1 ==> !(#[trigger] s[j] == 's' && s[j + 1] == 'o'));
        lemma_lacks_pair(s, "sondosieron"@, 0);
    }
    if has_textgrid {
        if has_audio {
            lemma_mentions_at(s, 28, "TextGrid"@);
        } else {
            lemma_mentions_at(s, 12, "TextGrid"@);
        }
    } else {
        assert(forall|j: int| 0 <= j < s.len() ==> s[j] != 'T');
        lemma_lacks(s, "TextGrid"@, 0);
    }
}

/// The Esperanto hint to drop files names every supported audio extension,
/// after its dot.
pub proof fn law_esperanto_drop_hint_names_extensions(exts: &'static [&'static str], i: int)
    requires
        0 <= i < exts@.len(),
    ensures
        mentions(esperanto_tl(Term::DropHintText { supported_audio_extensions: exts }), seq!['.'] + exts@[i]@),
{
    lemma_dot_list_mentions(exts@, i);
    lemma_mentions_within("Demetu sondosieron ("@, dot_list(exts@), ") kaj/aŭ TextGrid-dosieron ĉi tien."@, seq!['.'] + exts@[i]@);
}

/// The Esperanto line for a file that is loading names the file's kind and its
/// path; the line for one that failed to load names its kind, its path and
/// the error.
pub proof fn law_esperanto_loading_lines_name_file(thing: &'static str, path: String, error: String)
    ensures
        mentions(esperanto_tl(Term::LoadingThing { thing, path }), thing@),
        mentions(esperanto_tl(Term::LoadingThing { thing, path }), path@),
        mentions(esperanto_tl(Term::FailedToLoadThing { thing, path, error }), thing@),
        mentions(esperanto_tl(Term::FailedToLoadThing { thing, path, error }), path@),
        mentions(esperanto_tl(Term::FailedToLoadThing { thing, path, error }), error@),
{
    let e = Seq::<char>::empty();
    let l = esperanto_tl(Term::LoadingThing { thing, path });
    assert(l =~= "Ŝargante "@ + thing@ + (": "@ + path@));
    lemma_mentions_piece("Ŝargante "@, thing@, ": "@ + path@);
    assert(l =~= ("Ŝargante "@ + thing@ + ": "@) + path@ + e);
    lemma_mentions_piece("Ŝargante "@ + thing@ + ": "@, path@, e);
    let f = esperanto_tl(Term::FailedToLoadThing { thing, path, error });
    assert(f =~= "malsukcesis ŝargi "@ + thing@ + (": "@ + path@ + "\n"@ + error@));
    lemma_mentions_piece("malsukcesis ŝargi "@, thing@, ": "@ + path@ + "\n"@ + error@);
    assert(f =~= ("malsukcesis ŝargi "@ + thing@ + ": "@) + path@ + ("\n"@ + error@));
    lemma_mentions_piece("malsukcesis ŝargi "@ + thing@ + ": "@, path@, "\n"@ + error@);
    assert(f =~= ("malsukcesis ŝargi "@ + thing@ + ": "@ + path@ + "\n"@) + error@ + e);
    lemma_mentions_piece("malsukcesis ŝargi "@ + thing@ + ": "@ + path@ + "\n"@, error@, e);
}

} // verus!
