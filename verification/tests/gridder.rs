use vocha::views::windows::project_window::{
    audio_status, file_row, file_row_text, project_from_dropped_preview, textgrid_status,
    title_name, title_needs_update, title_text, FileRow,
};
use vocha::views::windows::welcome_window::{welcome_view, WelcomeView};
use vocha::states::project_state::{samples_digest, LoadLifeCycle, ProjectState};
use vocha::states::settings::{Settings, Theme};
use vocha::font_loading::{language_codes_from_env, parse_lc, LanguageCode};
use vocha::l10n::languages::cmn_hans::ChineseMandarinSimplified;
use vocha::l10n::languages::eng_us::English;
use vocha::l10n::languages::epo::Esperanto;
use vocha::l10n::{Language, Term, L10NMut, L10N};
use vocha::projects::ProjectPreview;
use vocha::states::projects::{
    file_kind, supported_audio_extensions, FileKind, HoveredOrDroppedFile, ProjectPreviewState,
};
use vocha::views::widgets::{LanguageSelector, ProjectPreviewWidget};
use vocha::views::windows::about_window::{AboutWidget, AboutWindow};
use vocha::views::windows::SingletonWindowOpenState;
use vocha::waveform::WaveformPaintMode;

fn file(path: &str, ext: Option<&str>) -> HoveredOrDroppedFile {
    HoveredOrDroppedFile { path: Some(path.to_string()), extension: ext.map(|e| e.to_string()) }
}

#[test]
fn english_terms() {
    let e = English;
    assert_eq!(e.code(), "eng-US");
    assert_eq!(e.display_name(), "English (American)");
    assert_eq!(e.tl(&Term::About), "About");
    assert_eq!(
        e.tl(&Term::DropHintText { supported_audio_extensions: &["wav", "mp3"] }),
        "Drop an audio file (.wav, .mp3) and/or a TextGrid file here."
    );
    assert_eq!(
        e.tl(&Term::ProjectPreviewText { has_audio: true, has_textgrid: false }),
        "A project of an audio file will be opened."
    );
    assert_eq!(
        e.tl(&Term::ProjectPreviewText { has_audio: false, has_textgrid: false }),
        "A project of nothing will be opened."
    );
    assert_eq!(
        e.tl(&Term::FailedToLoadThing {
            thing: "audio",
            path: "a.wav".to_string(),
            error: "boom".to_string()
        }),
        "Failed to load audio: a.wav\nboom"
    );
    assert_eq!(e.tl(&Term::GridderProject { name: Some("x".to_string()) }), "Gridder Project - x");
    assert_eq!(e.tl(&Term::GridderProject { name: None }), "Gridder Project");
}

#[test]
fn esperanto_and_chinese_terms() {
    let o = Esperanto;
    assert_eq!(o.code(), "epo");
    assert_eq!(o.tl(&Term::Theme), "Lingvo");
    assert_eq!(
        o.tl(&Term::LoadingThing { thing: "sono", path: "p".to_string() }),
        "Ŝargante sono: p"
    );
    let c = ChineseMandarinSimplified;
    assert_eq!(c.code(), "cmn-Hans");
    assert_eq!(c.display_name(), "中文（汉语官话・简体）");
    assert_eq!(
        c.tl(&Term::ProjectPreviewText { has_audio: false, has_textgrid: false }),
        "将打开一份空项目。"
    );
    assert_eq!(
        c.tl(&Term::ProjectPreviewText { has_audio: true, has_textgrid: true }),
        "将打开一份以一份音频文件和一份 TextGrid 文件构成的项目。"
    );
    assert_eq!(c.tl(&Term::DropHintText { supported_audio_extensions: &[] }), "拖入一份音频文件（）和/或 TextGrid 文件到此处。");
}

#[test]
fn l10n_choice() {
    let mut m = L10NMut::new();
    assert_eq!(L10N::available_language_codes(), &["eng"]);
    assert_eq!(m.inner().current_language_code(), "eng");
    m.set_current_language("xyz");
    assert_eq!(m.inner().current_language_code(), "eng");
    m.set_current_language("eng");
    assert_eq!(m.inner().current_language_code(), "eng");
    let l = L10N::new();
    assert!(l.get_language("eng").is_some());
    assert!(l.get_language("eng-US").is_none());
    assert_eq!(l.current_language().code(), "eng-US");
    assert_eq!(l.tl(&Term::Settings), "Settings");
    assert_eq!(LanguageSelector::options(&l), vec![("eng-US", "English (American)")]);
    assert_eq!(LanguageSelector::language_to_set(&l, "eng-US"), None);
    assert_eq!(LanguageSelector::language_to_set(&l, "epo"), Some("epo"));
}

#[test]
fn singleton_window_state() {
    let mut s = SingletonWindowOpenState::new();
    assert!(!s.is_open());
    assert!(!s.pop_is_desiring_focus());
    s.open();
    assert!(s.is_open());
    assert!(s.pop_is_desiring_focus());
    assert!(s.is_open());
    assert!(!s.pop_is_desiring_focus());
    s.close();
    assert!(!s.is_open());
    assert!(!s.pop_is_desiring_focus());
    s.open();
    s.close();
    assert!(!s.pop_is_desiring_focus());
}

#[test]
fn about_window_title() {
    let w = AboutWindow::new(L10N::new());
    assert_eq!(w.title(), "About Voĉa Gridder");
    let _widget = AboutWidget::from_window_ref(&w);
}

#[test]
fn file_kinds() {
    assert_eq!(file_kind("textgrid"), FileKind::TextGrid);
    assert_eq!(file_kind("wav"), FileKind::Audio);
    assert_eq!(file_kind("mp3"), FileKind::Audio);
    assert_eq!(file_kind("ogg"), FileKind::Other);
    assert_eq!(supported_audio_extensions(), &["wav", "mp3"]);
}

#[test]
fn project_preview_from_files() {
    let p = ProjectPreviewState::try_from_files(
        vec![file("a.WAV", Some("WAV")), file("b.TextGrid", Some("TextGrid")), file("dir", None)],
        true,
    )
    .unwrap();
    assert_eq!(p.audio_file_path(), Some("a.WAV"));
    assert_eq!(p.textgrid_file_path(), Some("b.TextGrid"));
    assert!(p.is_from_dropping());
    assert!(ProjectPreviewState::try_from_files(vec![file("a.wav", Some("wav")), file("b.mp3", Some("mp3"))], false).is_none());
    assert!(ProjectPreviewState::try_from_files(vec![file("a.txt", Some("txt"))], false).is_none());
    assert!(ProjectPreviewState::try_from_files(vec![], false).is_none());
    let l = L10N::new();
    let only_tg = ProjectPreviewState::try_from_files(vec![file("x.textgrid", Some("textgrid"))], false).unwrap();
    assert_eq!(ProjectPreviewWidget::text(&only_tg, &l), "A project of a TextGrid file will be opened.");
    let pp = ProjectPreview::try_from_files(vec![file("a.mp3", Some("mp3"))], false).unwrap();
    assert_eq!(pp.text(&l), "A project of an audio file will be opened.");
}

#[test]
fn language_codes() {
    assert_eq!(LanguageCode::from_str_most_similar("zh"), Some(LanguageCode::ZhHans));
    assert_eq!(LanguageCode::from_str_most_similar("zh-CN"), Some(LanguageCode::ZhHans));
    assert_eq!(LanguageCode::from_str_most_similar("zh-Hant-HK"), Some(LanguageCode::ZhHantHK));
    assert_eq!(LanguageCode::from_str_most_similar("zh-TW"), Some(LanguageCode::ZhHantTW));
    assert_eq!(LanguageCode::from_str_most_similar("cmn-Hant"), None);
    assert_eq!(LanguageCode::from_str_most_similar("ja-JP"), Some(LanguageCode::Ja));
    assert_eq!(LanguageCode::from_str_most_similar("en-KR"), Some(LanguageCode::Ko));
    assert_eq!(LanguageCode::from_str_most_similar("ar"), Some(LanguageCode::Ar));
    assert_eq!(LanguageCode::from_str_most_similar("en-US"), None);
    assert_eq!(LanguageCode::Ja.name(), "ja");
    assert_eq!(LanguageCode::ZhHantHK.preferred_font_names()[0], "PingFang HK");
    let list = LanguageCode::preferred_language_code_list(&["en-US".to_string(), "zh-HK".to_string(), "ja".to_string(), "zh-HK".to_string()]);
    assert_eq!(
        list,
        vec![
            LanguageCode::ZhHantHK,
            LanguageCode::Ja,
            LanguageCode::ZhHantTW,
            LanguageCode::ZhHans,
            LanguageCode::Ko,
            LanguageCode::Ar
        ]
    );
    assert_eq!(LanguageCode::preferred_language_code_list(&[]), LanguageCode::all());
    let fonts = LanguageCode::preferred_font_name_list(&["ko".to_string()]);
    assert_eq!(fonts.len(), 6);
    assert_eq!(fonts[0].0, LanguageCode::Ko);
    assert_eq!(fonts[0].1[0], "Apple SD Gothic Neo");
}

#[test]
fn locale_names() {
    assert_eq!(parse_lc("zh_CN.UTF-8"), Some("zh-CN".to_string()));
    assert_eq!(parse_lc(".UTF-8"), None);
    assert_eq!(parse_lc("C"), Some("C".to_string()));
    assert_eq!(language_codes_from_env(Some("ja_JP.UTF-8"), Some("ko"), None, None), vec!["ja-JP".to_string()]);
    assert_eq!(
        language_codes_from_env(Some(".x"), Some("zh_TW:en_US"), Some("fr_FR.UTF-8"), Some("de_DE")),
        vec!["zh-TW".to_string(), "en-US".to_string(), "fr-FR".to_string(), "de-DE".to_string()]
    );
}

#[test]
fn paint_modes_compare() {
    assert_ne!(WaveformPaintMode::Line, WaveformPaintMode::Bar);
}

#[test]
fn project_state_life_cycle() {
    let id = uuid::Uuid::nil();
    let mut p: ProjectState<u32, u8> = ProjectState::new(id);
    assert_eq!(p.uuid(), &id);
    assert!(matches!(p.audio(), LoadLifeCycle::Absent));
    assert!(!p.update_audio(Some(Ok(7))));
    assert!(matches!(p.audio(), LoadLifeCycle::Absent));
    p.load_audio("a.wav".to_string());
    assert_eq!(p.audio_path(), Some("a.wav"));
    assert!(matches!(p.audio(), LoadLifeCycle::Loading));
    assert!(!p.update_audio(None));
    assert!(p.update_audio(Some(Ok(7))));
    assert!(matches!(p.audio(), LoadLifeCycle::Loaded(7)));
    assert!(!p.update_audio(Some(Ok(8))));
    assert!(matches!(p.audio(), LoadLifeCycle::Loaded(7)));
    p.load_textgrid("b.TextGrid".to_string());
    assert!(p.update_textgrid(Some(Err("bad".to_string()))));
    assert!(matches!(p.textgrid(), LoadLifeCycle::Error(e) if e == "bad"));
    p.clear_audio();
    assert_eq!(p.audio_path(), None);
    assert!(matches!(p.audio(), LoadLifeCycle::Absent));
    assert_eq!(p.textgrid_path(), Some("b.TextGrid"));
    p.clear_textgrid();
    assert_eq!(p.textgrid_path(), None);
}

#[test]
fn samples_digest_is_sha256() {
    let d = samples_digest(b"abc");
    assert_eq!(
        d,
        vec![
            0xba, 0x78, 0x16, 0xbf, 0x8f, 0x01, 0xcf, 0xea, 0x41, 0x41, 0x40, 0xde, 0x5d, 0xae,
            0x22, 0x23, 0xb0, 0x03, 0x61, 0xa3, 0x96, 0x17, 0x7a, 0x9c, 0xb4, 0x10, 0xff, 0x61,
            0xf2, 0x00, 0x15, 0xad
        ]
    );
}

#[test]
fn settings_theme_and_language() {
    let mut s = Settings::new(L10NMut::new());
    assert_eq!(s.pop_dirty_theme(), Some(Theme::Dark));
    assert_eq!(s.pop_dirty_theme(), None);
    s.set_theme(Theme::Dark);
    assert_eq!(s.pop_dirty_theme(), None);
    s.set_theme(Theme::Light);
    assert_eq!(s.pop_dirty_theme(), Some(Theme::Light));
    assert_eq!(s.pop_dirty_theme(), None);
    s.set_current_language("eng");
    s.set_current_language("epo");
}

#[test]
fn project_window_decisions() {
    let l = L10N::new();
    let dropped = ProjectPreviewState::try_from_files(
        vec![file("a.wav", Some("wav")), file("g.TextGrid", Some("TextGrid"))],
        true,
    )
    .unwrap();
    let hovering = ProjectPreviewState::try_from_files(vec![file("a.wav", Some("wav"))], false).unwrap();
    assert!(project_from_dropped_preview::<u8, u8>(uuid::Uuid::nil(), &hovering).is_none());
    let mut p = project_from_dropped_preview::<u8, u8>(uuid::Uuid::nil(), &dropped).unwrap();
    assert!(matches!(p.audio(), LoadLifeCycle::Loading));
    assert!(matches!(p.textgrid(), LoadLifeCycle::Loading));
    assert_eq!(title_name(&p), Some("a.wav".to_string()));
    assert_eq!(audio_status(&l, &p), Some("Loading audio: a.wav".to_string()));
    assert!(p.update_audio(Some(Err("no decoder".to_string()))));
    assert_eq!(audio_status(&l, &p), Some("Failed to load audio: a.wav\nno decoder".to_string()));
    assert!(p.update_textgrid(Some(Ok(1))));
    assert_eq!(textgrid_status(&l, &p), None);
    p.clear_audio();
    assert_eq!(title_name(&p), Some("g.TextGrid".to_string()));
    assert_eq!(audio_status(&l, &p), None);
    assert!(title_needs_update(&None, &None));
    assert!(!title_needs_update(&Some(Some("x".to_string())), &Some("x".to_string())));
    assert!(title_needs_update(&Some(Some("x".to_string())), &Some("y".to_string())));
    assert!(title_needs_update(&Some(None), &Some("y".to_string())));
    assert!(!title_needs_update(&Some(None), &None));
    assert_eq!(title_text(&l, Some("x".to_string())), "Gridder Project - x");
    assert_eq!(file_row_text(&file_row(Some("n.wav"), Some("o.wav"))), "<will load as replacement>: n.wav");
    assert_eq!(file_row_text(&file_row(Some("n.wav"), None)), "<will load>: n.wav");
    assert_eq!(file_row_text(&file_row(None, Some("o.wav"))), "o.wav");
    assert!(matches!(file_row(None, None), FileRow::Absent));
    assert_eq!(file_row_text(&FileRow::Absent), "<absent>");
}

#[test]
fn welcome_window_views() {
    let l = L10N::new();
    match welcome_view(&l, None) {
        WelcomeView::DropHint(t) => {
            assert_eq!(t, "Drop an audio file (.wav, .mp3) and/or a TextGrid file here.")
        }
        _ => panic!("expected the drop hint"),
    }
    let hovering = ProjectPreviewState::try_from_files(vec![file("a.wav", Some("wav"))], false).unwrap();
    match welcome_view(&l, Some(&hovering)) {
        WelcomeView::Preview(t) => assert_eq!(t, "A project of an audio file will be opened."),
        _ => panic!("expected a preview"),
    }
    let dropped = ProjectPreviewState::try_from_files(vec![file("a.wav", Some("wav"))], true).unwrap();
    assert!(matches!(welcome_view(&l, Some(&dropped)), WelcomeView::OpenProject));
}

#[test]
fn system_fonts_skip_second_chinese() {
    use_font_loading_steps();
}

fn use_font_loading_steps() {
    let mut f = vocha::font_loading::FontLoading::new();
    assert_eq!(f.step(LanguageCode::Ja), vocha::font_loading::FontStep::Load);
    f.record(LanguageCode::Ja, false);
    assert_eq!(f.step(LanguageCode::ZhHans), vocha::font_loading::FontStep::Load);
    f.record(LanguageCode::ZhHans, true);
    assert_eq!(f.step(LanguageCode::ZhHantTW), vocha::font_loading::FontStep::Skip);
    assert_eq!(f.step(LanguageCode::Ko), vocha::font_loading::FontStep::Load);
    assert!(LanguageCode::Ja.supports_chinese_characters());
    assert!(!LanguageCode::Ar.supports_chinese_characters());
}

#[test]
fn waveform_filled_rows() {
    use_filled_rows();
}

fn use_filled_rows() {
    use_rows(WaveformPaintMode::Line, None);
    use_rows(WaveformPaintMode::BarSymmetric, Some((7, 13)));
    use_rows(WaveformPaintMode::BarAbsolutePositive, Some((7, 10)));
    use_rows(WaveformPaintMode::BarAbsoluteNegative, Some((10, 13)));
    assert_eq!(vocha::waveform::filled_rows(WaveformPaintMode::Bar, 10, 3, true), Some((7, 10)));
    assert_eq!(vocha::waveform::filled_rows(WaveformPaintMode::Bar, 10, 3, false), Some((10, 13)));
}

fn use_rows(mode: WaveformPaintMode, expected: Option<(usize, usize)>) {
    assert_eq!(vocha::waveform::filled_rows(mode, 10, 3, true), expected);
}
