//! What a set of hovered or dropped files would open as a project.
use vstd::prelude::*;

use crate::textbuf::str_eq_chars;

verus! {

/// The audio extensions the editor opens, in lower case.
pub open spec fn audio_extensions() -> Seq<Seq<char>> {
    seq!["wav"@, "mp3"@]
}

/// The audio extensions the editor opens, in lower case.
pub fn supported_audio_extensions() -> (r: &'static [&'static str])
    ensures
        r@.len() == audio_extensions().len(),
        forall|i: int| 0 <= i < r@.len() ==> #[trigger] r@[i]@ == audio_extensions()[i],
{
    let r: &'static [&'static str] = &["wav", "mp3"];
    r
}

/// What `str::to_lowercase` makes of a text: each character in lower case,
/// by Unicode's rules.
pub uninterp spec fn lowercase(s: Seq<char>) -> Seq<char>;

/// `str::to_lowercase`: the text in lower case, by the standard library's
/// Unicode tables, which the contract names and does not spell out.
#[verifier::external_body]
fn to_lowercase(s: &str) -> (r: String)
    ensures
        r@ == lowercase(s@),
{
    s.to_lowercase()
}

/// What a file is, by its extension in lower case.
#[derive(Debug, Clone, Copy, PartialEq, Eq, Structural)]
pub enum FileKind {
    TextGrid,
    Audio,
    Other,
}

/// What a file is, by its extension in lower case.
pub open spec fn kind_of_extension(lowered: Seq<char>) -> FileKind {
    if lowered == "textgrid"@ {
        FileKind::TextGrid
    } else if audio_extensions().contains(lowered) {
        FileKind::Audio
    } else {
        FileKind::Other
    }
}

/// What a file is, by its extension already in lower case.
pub fn file_kind(lowered: &str) -> (k: FileKind)
    ensures
        k == kind_of_extension(lowered@),
{
    let tg = ['t', 'e', 'x', 't', 'g', 'r', 'i', 'd'];
    proof {
        reveal_strlit("textgrid");
        assert(tg@ =~= "textgrid"@);
    }
    if str_eq_chars(lowered, &tg) {
        return FileKind::TextGrid;
    }
    let exts = supported_audio_extensions();
    let mut i: usize = 0;
    while i < exts.len()
        invariant
            exts@.len() == audio_extensions().len(),
            forall|j: int| 0 <= j < exts@.len() ==> #[trigger] exts@[j]@ == audio_extensions()[j],
            i <= exts@.len(),
            forall|j: int| 0 <= j < i ==> audio_extensions()[j] != lowered@,
            lowered@ != "textgrid"@,
        decreases exts@.len() - i,
    {
        let v = crate::textbuf::chars_of(exts[i]);
        if str_eq_chars(lowered, v.as_slice()) {
            assert(audio_extensions()[i as int] == lowered@);
            return FileKind::Audio;
        }
        i = i + 1;
    }
    assert(!audio_extensions().contains(lowered@)) by {
        if audio_extensions().contains(lowered@) {
            let j = choose|j: int| 0 <= j < audio_extensions().len() && audio_extensions()[j] == lowered@;
            assert(audio_extensions()[j] == lowered@);
        }
    }
    FileKind::Other
}

/// A file that hovers over the window or was dropped on it: its path, where
/// it has one, and the extension of that path, where it has one in UTF-8.
pub struct HoveredOrDroppedFile {
    pub path: Option<String>,
    pub extension: Option<String>,
}

/// The audio path and TextGrid path found so far.
pub type Found = (Option<Seq<char>>, Option<Seq<char>>);

/// The paths found so far, after one more file; `None` where the files cannot
/// make a project (a second audio file, a second TextGrid file, or a file of
/// another kind).
pub open spec fn found_after(found: Found, file: HoveredOrDroppedFile) -> Option<Found> {
    match (file.path, file.extension) {
        (Some(p), Some(e)) => match kind_of_extension(lowercase(e@)) {
            FileKind::TextGrid => if found.1 is Some {
                None
            } else {
                Some((found.0, Some(p@)))
            },
            FileKind::Audio => if found.0 is Some {
                None
            } else {
                Some((Some(p@), found.1))
            },
            FileKind::Other => None,
        },
        _ => Some(found),
    }
}

/// The paths found in the files, in order, or `None` where they cannot make a
/// project.
pub open spec fn found_in(files: Seq<HoveredOrDroppedFile>) -> Option<Found>
    decreases files.len(),
{
    if files.len() == 0 {
        Some((None, None))
    } else {
        match found_in(files.drop_last()) {
            Some(found) => found_after(found, files.last()),
            None => None,
        }
    }
}

/// Whether a file is of the given kind: it has a path and an extension whose
/// lower case names that kind.
pub open spec fn file_of_kind(f: HoveredOrDroppedFile, kind: FileKind) -> bool {
    &&& f.path is Some
    &&& f.extension is Some
    &&& kind_of_extension(lowercase(f.extension->Some_0@)) == kind
}

/// The path that files of one kind give: the path of the only file of that
/// kind, or none when there is none.
pub open spec fn only_path(files: Seq<HoveredOrDroppedFile>, kind: FileKind, found: Option<Seq<char>>) -> bool {
    match found {
        None => forall|k: int| 0 <= k < files.len() ==> !file_of_kind(#[trigger] files[k], kind),
        Some(p) => exists|k: int|
            0 <= k < files.len() && file_of_kind(#[trigger] files[k], kind) && p
                == files[k].path->Some_0@ && forall|m: int|
                0 <= m < files.len() && m != k ==> !file_of_kind(#[trigger] files[m], kind),
    }
}

proof fn lemma_only_path_step(files: Seq<HoveredOrDroppedFile>, kind: FileKind, before: Option<Seq<char>>, after: Option<Seq<char>>)
    requires
        files.len() > 0,
        only_path(files.drop_last(), kind, before),
        file_of_kind(files.last(), kind) ==> before is None && after == Some(files.last().path->Some_0@),
        !file_of_kind(files.last(), kind) ==> after == before,
    ensures
        only_path(files, kind, after),
{
    let d = files.drop_last();
    let n = files.len() - 1;
    assert forall|k: int| 0 <= k < n implies files[k] == d[k] by {}
    if file_of_kind(files.last(), kind) {
        assert(file_of_kind(files[n], kind));
        assert forall|m: int| 0 <= m < files.len() && m != n implies !file_of_kind(#[trigger] files[m], kind) by {
            assert(files[m] == d[m]);
        }
    } else {
        match before {
            None => {
                assert forall|k: int| 0 <= k < files.len() implies !file_of_kind(#[trigger] files[k], kind) by {
                    if k < n {
                        assert(files[k] == d[k]);
                    }
                }
            },
            Some(p) => {
                let k = choose|k: int|
                    0 <= k < d.len() && file_of_kind(#[trigger] d[k], kind) && p == d[k].path->Some_0@
                        && forall|m: int| 0 <= m < d.len() && m != k ==> !file_of_kind(#[trigger] d[m], kind);
                assert(files[k] == d[k]);
                assert forall|m: int| 0 <= m < files.len() && m != k implies !file_of_kind(#[trigger] files[m], kind) by {
                    if m < n {
                        assert(files[m] == d[m]);
                    }
                }
            },
        }
    }
}

/// Files that make a project give the path of their only audio file (none
/// without one) and the path of their only TextGrid file (none without one).
pub proof fn law_found_paths(files: Seq<HoveredOrDroppedFile>)
    requires
        found_in(files) is Some,
    ensures
        only_path(files, FileKind::Audio, found_in(files)->Some_0.0),
        only_path(files, FileKind::TextGrid, found_in(files)->Some_0.1),
    decreases files.len(),
{
    if files.len() > 0 {
        let d = files.drop_last();
        let f = files.last();
        assert(found_in(d) is Some);
        law_found_paths(d);
        let before = found_in(d)->Some_0;
        let after = found_in(files)->Some_0;
        assert(after == found_after(before, f)->Some_0);
        lemma_only_path_step(files, FileKind::Audio, before.0, after.0);
        lemma_only_path_step(files, FileKind::TextGrid, before.1, after.1);
    }
}

/// Files that cannot make a project stay so whatever files follow them.
proof fn lemma_found_in_none(files: Seq<HoveredOrDroppedFile>, k: int)
    requires
        0 <= k <= files.len(),
        found_in(files.take(k)) is None,
    ensures
        found_in(files) is None,
    decreases files.len() - k,
{
    if k < files.len() {
        let t = files.take(k + 1);
        assert(t.drop_last() =~= files.take(k));
        lemma_found_in_none(files, k + 1);
    } else {
        assert(files.take(k) =~= files);
    }
}

/// A file with a path and an extension that, in lower case, is neither
/// `textgrid` nor `wav` nor `mp3` keeps the files from making a project,
/// wherever it stands among them.
pub proof fn law_unsupported_file_blocks(files: Seq<HoveredOrDroppedFile>, k: int)
    requires
        0 <= k < files.len(),
        files[k].path is Some,
        files[k].extension is Some,
        lowercase(files[k].extension->Some_0@) != "textgrid"@,
        lowercase(files[k].extension->Some_0@) != "wav"@,
        lowercase(files[k].extension->Some_0@) != "mp3"@,
    ensures
        found_in(files) is None,
{
    let e = lowercase(files[k].extension->Some_0@);
    assert(!audio_extensions().contains(e)) by {
        if audio_extensions().contains(e) {
            let j = choose|j: int| 0 <= j < audio_extensions().len() && audio_extensions()[j] == e;
            assert(j == 0 || j == 1);
        }
    }
    assert(kind_of_extension(e) == FileKind::Other);
    let t = files.take(k + 1);
    assert(t.drop_last() =~= files.take(k));
    assert(t.last() == files[k]);
    assert(found_in(t) is None);
    lemma_found_in_none(files, k + 1);
}

/// A file without a path, or without an extension, is passed over: taking it
/// out of the files changes nothing about what they open.
pub proof fn law_incomplete_file_passed_over(files: Seq<HoveredOrDroppedFile>, k: int)
    requires
        0 <= k < files.len(),
        files[k].path is None || files[k].extension is None,
    ensures
        found_in(files) == found_in(files.remove(k)),
    decreases files.len(),
{
    let d = files.drop_last();
    if k == files.len() - 1 {
        assert(files.remove(k) =~= d);
        assert(files.last() == files[k]);
    } else {
        law_incomplete_file_passed_over(d, k);
        let r = files.remove(k);
        assert(r.drop_last() =~= d.remove(k));
        assert(r.last() == files.last());
    }
}

/// The view of an optional path.
pub open spec fn path_view(p: Option<String>) -> Option<Seq<char>> {
    match p {
        Some(s) => Some(s@),
        None => None,
    }
}

/// What a set of files would open: an audio file, a TextGrid file, or both.
pub struct ProjectPreviewState {
    audio_file_path: Option<String>,
    textgrid_file_path: Option<String>,
    is_from_dropping: bool,
}

impl ProjectPreviewState {
    /// The audio path.
    pub closed spec fn audio(&self) -> Option<Seq<char>> {
        path_view(self.audio_file_path)
    }

    /// The TextGrid path.
    pub closed spec fn textgrid(&self) -> Option<Seq<char>> {
        path_view(self.textgrid_file_path)
    }

    /// Whether the files were dropped, not only hovering.
    pub closed spec fn dropped(&self) -> bool {
        self.is_from_dropping
    }

    /// The audio path, if any.
    pub fn audio_file_path(&self) -> (r: Option<&str>)
        ensures
            r is Some == self.audio() is Some,
            r is Some ==> r->Some_0@ == self.audio()->Some_0,
    {
        match &self.audio_file_path {
            Some(p) => Some(p.as_str()),
            None => None,
        }
    }

    /// The TextGrid path, if any.
    pub fn textgrid_file_path(&self) -> (r: Option<&str>)
        ensures
            r is Some == self.textgrid() is Some,
            r is Some ==> r->Some_0@ == self.textgrid()->Some_0,
    {
        match &self.textgrid_file_path {
            Some(p) => Some(p.as_str()),
            None => None,
        }
    }

    /// Whether the files were dropped, not only hovering.
    pub fn is_from_dropping(&self) -> (r: bool)
        ensures
            r == self.dropped(),
    {
        self.is_from_dropping
    }

    /// What the files would open: `None` where they hold a second audio
    /// file, a second TextGrid file, a file of another kind, or neither kind.
    /// A file without a path or without an extension is passed over.
    pub fn try_from_files(files: Vec<HoveredOrDroppedFile>, is_from_dropping: bool) -> (r: Option<
        ProjectPreviewState,
    >)
        ensures
            match found_in(files@) {
                Some(found) => if found.0 is Some || found.1 is Some {
                    r is Some && r->Some_0.audio() == found.0 && r->Some_0.textgrid() == found.1
                        && r->Some_0.dropped() == is_from_dropping
                } else {
                    r is None
                },
                None => r is None,
            },
    {
        let ghost all = files@;
        let mut ret = ProjectPreviewState {
            audio_file_path: None,
            textgrid_file_path: None,
            is_from_dropping,
        };
        let mut rest = files;
        let len0 = rest.len();
        let ghost n = all.len();
        let mut taken: usize = 0;
        while rest.len() > 0
            invariant
                taken + rest@.len() == n,
                n == all.len(),
                all == files@,
                rest@ == all.skip(taken as int),
                all.len() <= usize::MAX,
                found_in(all.take(taken as int)) == Some((ret.audio(), ret.textgrid())),
                ret.dropped() == is_from_dropping,
            decreases rest@.len(),
        {
            let file = rest.remove(0);
            proof {
                assert(file == all[taken as int]);
                assert(rest@ =~= all.skip(taken as int + 1));
                let t = all.take(taken as int + 1);
                assert(t.drop_last() =~= all.take(taken as int));
                assert(t.last() == all[taken as int]);
            }
            taken = taken + 1;
            proof {
                let t = all.take(taken as int);
                assert(t.drop_last() =~= all.take(taken as int - 1));
            }
            match (file.path, file.extension) {
                (Some(path), Some(extension)) => {
                    let lowered = to_lowercase(extension.as_str());
                    match file_kind(lowered.as_str()) {
                        FileKind::TextGrid => {
                            if ret.textgrid_file_path.is_some() {
                                proof {
                                    lemma_found_in_none(all, taken as int);
                                }
                                assert(found_in(all) is None);
                                return None;
                            }
                            ret.textgrid_file_path = Some(path);
                        },
                        FileKind::Audio => {
                            if ret.audio_file_path.is_some() {
                                proof {
                                    lemma_found_in_none(all, taken as int);
                                }
                                assert(found_in(all) is None);
                                return None;
                            }
                            ret.audio_file_path = Some(path);
                        },
                        FileKind::Other => {
                            proof {
                                    lemma_found_in_none(all, taken as int);
                                }
                                assert(found_in(all) is None);
                            return None;
                        },
                    }
                },
                _ => {},
            }
        }
        assert(all.take(n as int) =~= all);
        if ret.audio_file_path.is_some() || ret.textgrid_file_path.is_some() {
            Some(ret)
        } else {
            None
        }
    }
}

} // verus!
