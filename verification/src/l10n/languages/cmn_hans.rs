//! Mandarin Chinese in simplified characters.
use vstd::prelude::*;

use crate::l10n::{
    dot_list, lemma_dot_list_mentions, lemma_lacks, lemma_mentions_at, lemma_mentions_piece, lemma_mentions_within, mentions, push_dot_list, Language, Term,
};
use crate::textbuf::{push_str, string_from};

verus! {

/// Mandarin Chinese in simplified characters.
#[derive(Clone, Copy, PartialEq, Eq, Structural)]
pub struct ChineseMandarinSimplified;

/// What a project preview names, when it names anything.
pub open spec fn chinese_preview(has_audio: bool, has_textgrid: bool) -> Seq<char> {
    if has_audio && has_textgrid {
        "一份音频文件和一份 TextGrid 文件"@
    } else if has_audio {
        "一份音频文件"@
    } else {
        "一份 TextGrid 文件"@
    }
}

/// The Chinese wording of a term.
pub open spec fn chinese_tl(term: Term) -> Seq<char> {
    match term {
        Term::About => "关于"@,
        Term::Settings => "设置"@,
        Term::Appearance => "外观"@,
        Term::DropHintText { supported_audio_extensions } => "拖入一份音频文件（"@ + dot_list(
            supported_audio_extensions@,
        ) + "）和/或 TextGrid 文件到此处。"@,
        Term::ProjectPreviewText { has_audio, has_textgrid } => if has_audio || has_textgrid {
            "将打开一份以"@ + chinese_preview(has_audio, has_textgrid) + "构成的项目。"@
        } else {
            "将打开一份空项目。"@
        },
        Term::LoadingThing { thing, path } => "正在加载「"@ + thing@ + "」："@ + path@,
        Term::FailedToLoadThing { thing, path, error } => "加载「"@ + thing@ + "」失败："@ + path@
            + "\n"@ + error@,
        Term::GridderProject { name } => match name {
            Some(n) => "Gridder 项目 - "@ + n@,
            None => "Gridder 项目"@,
        },
        Term::Theme => "主题"@,
    }
}

fn chinese_preview_exec(has_audio: bool, has_textgrid: bool) -> (r: &'static str)
    ensures
        r@ == chinese_preview(has_audio, has_textgrid),
{
    if has_audio && has_textgrid {
        "一份音频文件和一份 TextGrid 文件"
    } else if has_audio {
        "一份音频文件"
    } else {
        "一份 TextGrid 文件"
    }
}

impl Language for ChineseMandarinSimplified {
    open spec fn spec_code(&self) -> Seq<char> {
        "cmn-Hans"@
    }

    open spec fn spec_display_name(&self) -> Seq<char> {
        "中文（汉语官话・简体）"@
    }

    open spec fn spec_tl(&self, term: Term) -> Seq<char> {
        chinese_tl(term)
    }

    fn code(&self) -> (r: &'static str) {
        "cmn-Hans"
    }

    fn display_name(&self) -> (r: &'static str) {
        "中文（汉语官话・简体）"
    }

    fn tl(&self, term: &Term) -> (r: String) {
        match term {
            Term::About => string_from("关于"),
            Term::Settings => string_from("设置"),
            Term::Appearance => string_from("外观"),
            Term::DropHintText { supported_audio_extensions } => {
                let mut s = string_from("拖入一份音频文件（");
                push_dot_list(&mut s, supported_audio_extensions);
                push_str(&mut s, "）和/或 TextGrid 文件到此处。");
                s
            },
            Term::ProjectPreviewText { has_audio, has_textgrid } => {
                if *has_audio || *has_textgrid {
                    let mut s = string_from("将打开一份以");
                    push_str(&mut s, chinese_preview_exec(*has_audio, *has_textgrid));
                    push_str(&mut s, "构成的项目。");
                    s
                } else {
                    string_from("将打开一份空项目。")
                }
            },
            Term::LoadingThing { thing, path } => {
                let mut s = string_from("正在加载「");
                push_str(&mut s, thing);
                push_str(&mut s, "」：");
                push_str(&mut s, path.as_str());
                s
            },
            Term::FailedToLoadThing { thing, path, error } => {
                let mut s = string_from("加载「");
                push_str(&mut s, thing);
                push_str(&mut s, "」失败：");
                push_str(&mut s, path.as_str());
                push_str(&mut s, "\n");
                push_str(&mut s, error.as_str());
                s
            },
            Term::GridderProject { name } => match name {
                Some(n) => {
                    let mut s = string_from("Gridder 项目 - ");
                    push_str(&mut s, n.as_str());
                    s
                },
                None => string_from("Gridder 项目"),
            },
            Term::Theme => string_from("主题"),
        }
    }
}

/// The Chinese project preview names an audio file (`音频`) exactly when the
/// files hold one, and a TextGrid file exactly when they hold one; with
/// neither it speaks of an empty project (`空项目`).
pub proof fn law_chinese_preview_names_files(has_audio: bool, has_textgrid: bool)
    ensures
        mentions(chinese_tl(Term::ProjectPreviewText { has_audio, has_textgrid }), "音频"@)
            == has_audio,
        mentions(chinese_tl(Term::ProjectPreviewText { has_audio, has_textgrid }), "TextGrid"@)
            == has_textgrid,
        mentions(chinese_tl(Term::ProjectPreviewText { has_audio, has_textgrid }), "空项目"@)
            == (!has_audio && !has_textgrid),
{
    reveal_strlit("将打开一份以");
    reveal_strlit("构成的项目。");
    reveal_strlit("将打开一份空项目。");
    reveal_strlit("一份音频文件和一份 TextGrid 文件");
    reveal_strlit("一份音频文件");
    reveal_strlit("一份 TextGrid 文件");
    reveal_strlit("音频");
    reveal_strlit("TextGrid");
    reveal_strlit("空项目");
    let s = chinese_tl(Term::ProjectPreviewText { has_audio, has_textgrid });
    if has_audio || has_textgrid {
        assert(s == "将打开一份以"@ + chinese_preview(has_audio, has_textgrid) + "构成的项目。"@);
        assert(forall|j: int| 0 <= j < s.len() ==> s[j] != '空');
        lemma_lacks(s, "空项目"@, 0);
        if has_audio {
            lemma_mentions_at(s, 8, "音频"@);
        } else {
            assert(forall|j: int| 0 <= j < s.len() ==> s[j] != '音');
            lemma_lacks(s, "音频"@, 0);
        }
        if has_textgrid {
            if has_audio {
                lemma_mentions_at(s, 16, "TextGrid"@);
            } else {
                lemma_mentions_at(s, 9, "TextGrid"@);
            }
        } else {
            assert(forall|j: int| 0 <= j < s.len() ==> s[j] != 'T');
            lemma_lacks(s, "TextGrid"@, 0);
        }
    } else {
        assert(s == "将打开一份空项目。"@);
        lemma_mentions_at(s, 5, "空项目"@);
        assert(forall|j: int| 0 <= j < s.len() ==> s[j] != '音');
        lemma_lacks(s, "音频"@, 0);
        assert(forall|j: int| 0 <= j < s.len() ==> s[j] != 'T');
        lemma_lacks(s, "TextGrid"@, 0);
    }
}

/// The Chinese hint to drop files names every supported audio extension,
/// after its dot.
pub proof fn law_chinese_drop_hint_names_extensions(exts: &'static [&'static str], i: int)
    requires
        0 <= i < exts@.len(),
    ensures
        mentions(chinese_tl(Term::DropHintText { supported_audio_extensions: exts }), seq!['.'] + exts@[i]@),
{
    lemma_dot_list_mentions(exts@, i);
    lemma_mentions_within("拖入一份音频文件（"@, dot_list(exts@), "）和/或 TextGrid 文件到此处。"@, seq!['.'] + exts@[i]@);
}

/// The Chinese line for a file that is loading names the file's kind and its
/// path; the line for one that failed to load names its kind, its path and
/// the error.
pub proof fn law_chinese_loading_lines_name_file(thing: &'static str, path: String, error: String)
    ensures
        mentions(chinese_tl(Term::LoadingThing { thing, path }), thing@),
        mentions(chinese_tl(Term::LoadingThing { thing, path }), path@),
        mentions(chinese_tl(Term::FailedToLoadThing { thing, path, error }), thing@),
        mentions(chinese_tl(Term::FailedToLoadThing { thing, path, error }), path@),
        mentions(chinese_tl(Term::FailedToLoadThing { thing, path, error }), error@),
{
    let e = Seq::<char>::empty();
    let l = chinese_tl(Term::LoadingThing { thing, path });
    assert(l =~= "正在加载「"@ + thing@ + ("」："@ + path@));
    lemma_mentions_piece("正在加载「"@, thing@, "」："@ + path@);
    assert(l =~= ("正在加载「"@ + thing@ + "」："@) + path@ + e);
    lemma_mentions_piece("正在加载「"@ + thing@ + "」："@, path@, e);
    let f = chinese_tl(Term::FailedToLoadThing { thing, path, error });
    assert(f =~= "加载「"@ + thing@ + ("」失败："@ + path@ + "\n"@ + error@));
    lemma_mentions_piece("加载「"@, thing@, "」失败："@ + path@ + "\n"@ + error@);
    assert(f =~= ("加载「"@ + thing@ + "」失败："@) + path@ + ("\n"@ + error@));
    lemma_mentions_piece("加载「"@ + thing@ + "」失败："@, path@, "\n"@ + error@);
    assert(f =~= ("加载「"@ + thing@ + "」失败："@ + path@ + "\n"@) + error@ + e);
    lemma_mentions_piece("加载「"@ + thing@ + "」失败："@ + path@ + "\n"@, error@, e);
}

} // verus!
