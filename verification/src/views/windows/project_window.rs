//! What a project window shows and when its title changes.
use vstd::prelude::*;

use crate::l10n::languages::eng_us::{english_failed, english_loading, english_tl};
use crate::l10n::{Term, L10N};
use crate::states::project_state::{LoadLifeCycle, ProjectState};
use crate::states::projects::ProjectPreviewState;
use crate::textbuf::{push_str, str_eq_chars, string_from};

verus! {

/// The project that files dropped on the window open: each file the preview
/// names starts loading. Files that only hover open nothing.
pub fn project_from_dropped_preview<A, G>(uuid: uuid::Uuid, preview: &ProjectPreviewState) -> (r:
    Option<ProjectState<A, G>>)
    ensures
        r is Some <==> preview.dropped(),
        r matches Some(p) ==> {
            &&& p.id() == uuid
            &&& p.audio_file() == preview.audio()
            &&& p.textgrid_file() == preview.textgrid()
            &&& (preview.audio() is Some ==> p.audio_state() is Loading)
            &&& (preview.audio() is None ==> p.audio_state() is Absent)
            &&& (preview.textgrid() is Some ==> p.textgrid_state() is Loading)
            &&& (preview.textgrid() is None ==> p.textgrid_state() is Absent)
        },
{
    if !preview.is_from_dropping() {
        return None;
    }
    let mut p = ProjectState::new(uuid);
    if let Some(a) = preview.audio_file_path() {
        p.load_audio(string_from(a));
    }
    if let Some(t) = preview.textgrid_file_path() {
        p.load_textgrid(string_from(t));
    }
    Some(p)
}

/// The view of an optional string.
pub open spec fn opt_view(s: Option<String>) -> Option<Seq<char>> {
    match s {
        Some(t) => Some(t@),
        None => None,
    }
}

/// The name in a project window's title: the audio path, else the TextGrid
/// path, else none.
pub fn title_name<A, G>(state: &ProjectState<A, G>) -> (r: Option<String>)
    ensures
        opt_view(r) == (if state.audio_file() is Some {
            state.audio_file()
        } else {
            state.textgrid_file()
        }),
{
    if let Some(a) = state.audio_path() {
        Some(string_from(a))
    } else if let Some(t) = state.textgrid_path() {
        Some(string_from(t))
    } else {
        None
    }
}

/// Whether the window's title must be set: when none was set yet, or the
/// name changed.
pub fn title_needs_update(last: &Option<Option<String>>, new: &Option<String>) -> (r: bool)
    ensures
        r == match last {
            None => true,
            Some(old) => opt_view(*old) != opt_view(*new),
        },
{
    match last {
        None => true,
        Some(old) => match (old, new) {
            (Some(a), Some(b)) => {
                let cs = crate::textbuf::chars_of(b.as_str());
                !str_eq_chars(a.as_str(), cs.as_slice())
            },
            (None, None) => false,
            _ => true,
        },
    }
}

/// The title of a project window for a name.
pub fn title_text(l: &L10N, name: Option<String>) -> (r: String)
    ensures
        r@ == english_tl(Term::GridderProject { name }),
{
    l.tl(&Term::GridderProject { name })
}

/// What the row of a file in the window's header shows.
pub enum FileRow {
    /// A file that hovering or dropped files would load, and whether it
    /// would replace a file the project has.
    WillLoad { path: String, replacing: bool },
    /// The file the project has.
    Current { path: String },
    /// No file.
    Absent,
}

/// The row of a file: the file that files over the window would load, else
/// the project's file, else none.
pub fn file_row(preview_path: Option<&str>, current_path: Option<&str>) -> (r: FileRow)
    ensures
        match preview_path {
            Some(p) => r matches FileRow::WillLoad { path, replacing } && path@ == p@ && replacing
                == (current_path is Some),
            None => match current_path {
                Some(c) => r matches FileRow::Current { path } && path@ == c@,
                None => r is Absent,
            },
        },
{
    match preview_path {
        Some(p) => FileRow::WillLoad { path: string_from(p), replacing: current_path.is_some() },
        None => match current_path {
            Some(c) => FileRow::Current { path: string_from(c) },
            None => FileRow::Absent,
        },
    }
}

/// The text of a file row.
pub open spec fn row_text(row: FileRow) -> Seq<char> {
    match row {
        FileRow::WillLoad { path, replacing } => if replacing {
            "<will load as replacement>: "@ + path@
        } else {
            "<will load>: "@ + path@
        },
        FileRow::Current { path } => path@,
        FileRow::Absent => "<absent>"@,
    }
}

/// The text of a file row.
pub fn file_row_text(row: &FileRow) -> (r: String)
    ensures
        r@ == row_text(*row),
{
    match row {
        FileRow::WillLoad { path, replacing } => {
            let mut s = if *replacing {
                string_from("<will load as replacement>: ")
            } else {
                string_from("<will load>: ")
            };
            push_str(&mut s, path.as_str());
            s
        },
        FileRow::Current { path } => string_from(path.as_str()),
        FileRow::Absent => string_from("<absent>"),
    }
}

/// The line shown for a file of a project: while it loads, and when it
/// failed; none when it is absent or loaded.
pub open spec fn status_line<T>(thing: &'static str, path: Option<Seq<char>>, c: LoadLifeCycle<T>) -> Option<Seq<char>> {
    match c {
        LoadLifeCycle::Loading => Some(english_loading(thing@, path->Some_0)),
        LoadLifeCycle::Error(e) => Some(english_failed(thing@, path->Some_0, e@)),
        _ => None,
    }
}

fn status_of<T>(l: &L10N, thing: &'static str, path: Option<&str>, c: &LoadLifeCycle<T>) -> (r: Option<String>)
    requires
        !(c is Absent) ==> path is Some,
    ensures
        opt_view(r) == status_line(thing, match path { Some(p) => Some(p@), None => None }, *c),
{
    match c {
        LoadLifeCycle::Loading => {
            let p = match path {
                Some(p) => string_from(p),
                None => String::new(),
            };
            let r = l.tl(&Term::LoadingThing { thing, path: p });
            Some(r)
        },
        LoadLifeCycle::Error(e) => {
            let p = match path {
                Some(p) => string_from(p),
                None => String::new(),
            };
            let r = l.tl(&Term::FailedToLoadThing { thing, path: p, error: string_from(e.as_str()) });
            Some(r)
        },
        _ => None,
    }
}

/// The line shown for the project's audio.
pub fn audio_status<A, G>(l: &L10N, state: &ProjectState<A, G>) -> (r: Option<String>)
    ensures
        opt_view(r) == status_line("audio", state.audio_file(), state.audio_state()),
{
    let c = state.audio();
    status_of(l, "audio", state.audio_path(), c)
}

/// The line shown for the project's TextGrid.
pub fn textgrid_status<A, G>(l: &L10N, state: &ProjectState<A, G>) -> (r: Option<String>)
    ensures
        opt_view(r) == status_line("TextGrid", state.textgrid_file(), state.textgrid_state()),
{
    let c = state.textgrid();
    status_of(l, "TextGrid", state.textgrid_path(), c)
}

} // verus!
