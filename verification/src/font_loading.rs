//! Which fonts to look for, by the languages the user prefers.
use vstd::prelude::*;

use crate::textbuf::{push_char, str_eq_chars};

verus! {

/// The pieces of a text between the occurrences of a separator; there is
/// always at least one.
pub open spec fn split_on(s: Seq<char>, sep: char) -> Seq<Seq<char>>
    decreases s.len(),
{
    if s.len() == 0 {
        seq![Seq::empty()]
    } else {
        let prev = split_on(s.drop_last(), sep);
        if s.last() == sep {
            prev.push(Seq::empty())
        } else {
            prev.update(prev.len() - 1, prev.last().push(s.last()))
        }
    }
}

proof fn lemma_split_nonempty(s: Seq<char>, sep: char)
    ensures
        split_on(s, sep).len() >= 1,
    decreases s.len(),
{
    if s.len() > 0 {
        lemma_split_nonempty(s.drop_last(), sep);
    }
}

/// The views of a list of character vectors.
pub open spec fn views(v: Seq<Vec<char>>) -> Seq<Seq<char>> {
    v.map_values(|x: Vec<char>| x@)
}

/// The pieces of a text between the occurrences of a separator.
pub fn split_chars(s: &str, sep: char) -> (r: Vec<Vec<char>>)
    ensures
        views(r@) == split_on(s@, sep),
{
    let cs = crate::textbuf::chars_of(s);
    let mut done: Vec<Vec<char>> = Vec::new();
    let mut cur: Vec<char> = Vec::new();
    let mut i: usize = 0;
    while i < cs.len()
        invariant
            cs@ == s@,
            i <= cs@.len(),
            views(done@).push(cur@) == split_on(cs@.take(i as int), sep),
        decreases cs@.len() - i,
    {
        let c = cs[i];
        proof {
            let t = cs@.take(i as int + 1);
            assert(t.drop_last() =~= cs@.take(i as int));
            assert(t.last() == c);
            lemma_split_nonempty(cs@.take(i as int), sep);
        }
        if c == sep {
            let ghost before = views(done@).push(cur@);
            done.push(cur);
            cur = Vec::new();
            assert(views(done@).push(cur@) =~= before.push(Seq::empty()));
        } else {
            let ghost before = views(done@).push(cur@);
            cur.push(c);
            assert(views(done@).push(cur@) =~= before.update(
                before.len() - 1,
                before.last().push(c),
            ));
        }
        i = i + 1;
    }
    assert(cs@.take(cs@.len() as int) =~= cs@);
    done.push(cur);
    assert(views(done@) =~= split_on(s@, sep));
    done
}

/// Whether one of the pieces equals a word.
pub fn parts_contain(parts: &Vec<Vec<char>>, word: &str) -> (r: bool)
    ensures
        r == views(parts@).contains(word@),
{
    let mut i: usize = 0;
    while i < parts.len()
        invariant
            i <= parts@.len(),
            forall|j: int| 0 <= j < i ==> views(parts@)[j] != word@,
        decreases parts@.len() - i,
    {
        if str_eq_chars(word, parts[i].as_slice()) {
            assert(views(parts@)[i as int] == word@);
            return true;
        }
        i = i + 1;
    }
    proof {
        if views(parts@).contains(word@) {
            let j = choose|j: int| 0 <= j < views(parts@).len() && views(parts@)[j] == word@;
            assert(views(parts@)[j] == word@);
        }
    }
    false
}

/// The part of a locale name before its codeset (`.`), with `_` written
/// `-`; `None` where that part is empty.
pub open spec fn spec_parse_lc(lc: Seq<char>) -> Option<Seq<char>> {
    let before = split_on(lc, '.')[0];
    if before.len() == 0 {
        None
    } else {
        Some(before.map_values(|c: char| if c == '_' { '-' } else { c }))
    }
}

proof fn lemma_split_first(s: Seq<char>, sep: char, k: int)
    requires
        0 <= k <= s.len(),
        forall|j: int| 0 <= j < k ==> s[j] != sep,
    ensures
        split_on(s.take(k), sep) == seq![s.take(k)],
    decreases k,
{
    if k > 0 {
        lemma_split_first(s, sep, k - 1);
        let t = s.take(k);
        assert(t.drop_last() =~= s.take(k - 1));
        assert(s.take(k - 1).push(t.last()) =~= s.take(k));
        assert(seq![s.take(k - 1)].update(0, s.take(k - 1).push(t.last())) =~= seq![s.take(k)]);
    } else {
        assert(s.take(0) =~= Seq::<char>::empty());
    }
}

proof fn lemma_split_first_stays(s: Seq<char>, sep: char, k: int)
    requires
        0 <= k <= s.len(),
        split_on(s.take(k), sep).len() >= 2 || (k < s.len() && s[k] == sep && split_on(s.take(k), sep).len() >= 1),
    ensures
        split_on(s, sep)[0] == split_on(s.take(k), sep)[0],
    decreases s.len() - k,
{
    if k < s.len() {
        let t = s.take(k + 1);
        assert(t.drop_last() =~= s.take(k));
        lemma_split_first_stays(s, sep, k + 1);
    } else {
        assert(s.take(k) =~= s);
    }
}

/// The language code of a locale name: the part before its codeset, with
/// `_` written `-`.
pub fn parse_lc(lc: &str) -> (r: Option<String>)
    ensures
        match spec_parse_lc(lc@) {
            Some(p) => r is Some && r->Some_0@ == p,
            None => r is None,
        },
{
    let cs = crate::textbuf::chars_of(lc);
    let mut out = String::new();
    let mut i: usize = 0;
    while i < cs.len() && cs[i] != '.'
        invariant
            cs@ == lc@,
            i <= cs@.len(),
            forall|j: int| 0 <= j < i ==> cs@[j] != '.',
            out@ == cs@.take(i as int).map_values(|c: char| if c == '_' { '-' } else { c }),
        decreases cs@.len() - i,
    {
        let c = cs[i];
        if c == '_' {
            push_char(&mut out, '-');
        } else {
            push_char(&mut out, c);
        }
        i = i + 1;
        assert(out@ =~= cs@.take(i as int).map_values(|c: char| if c == '_' { '-' } else { c }));
    }
    proof {
        lemma_split_first(cs@, '.', i as int);
        if i < cs@.len() {
            let t = cs@.take(i as int + 1);
            assert(t.drop_last() =~= cs@.take(i as int));
            lemma_split_first_stays(cs@, '.', i as int);
        } else {
            assert(cs@.take(i as int) =~= cs@);
        }
    }
    if i == 0 {
        None
    } else {
        Some(out)
    }
}


/// The languages whose script needs fonts of their own.
#[derive(Debug, Clone, Copy, PartialEq, Eq, Hash, Structural)]
pub enum LanguageCode {
    ZhHans,
    ZhHantTW,
    ZhHantHK,
    Ja,
    Ko,
    Ar,
}

/// Every language code, in the order fonts are tried by default.
pub open spec fn all_codes() -> Seq<LanguageCode> {
    seq![
        LanguageCode::ZhHans,
        LanguageCode::ZhHantTW,
        LanguageCode::ZhHantHK,
        LanguageCode::Ja,
        LanguageCode::Ko,
        LanguageCode::Ar,
    ]
}

/// The written form of a language code.
pub open spec fn code_text(c: LanguageCode) -> Seq<char> {
    match c {
        LanguageCode::ZhHans => "zh-Hans"@,
        LanguageCode::ZhHantTW => "zh-Hant-TW"@,
        LanguageCode::ZhHantHK => "zh-Hant-HK"@,
        LanguageCode::Ja => "ja"@,
        LanguageCode::Ko => "ko"@,
        LanguageCode::Ar => "ar"@,
    }
}

/// The font families to try for a language, best first.
pub open spec fn font_names(c: LanguageCode) -> Seq<Seq<char>> {
    match c {
        LanguageCode::ZhHans => seq![
            "PingFang SC"@,
            "Microsoft YaHei UI"@,
            "Noto Sans CJK SC"@,
            "Noto Sans SC"@,
            "Source Han Sans CN"@,
            "WenQuanYi Zen Hei"@,
            "SimSun"@,
        ],
        LanguageCode::ZhHantTW => seq![
            "PingFang TC"@,
            "Microsoft JhengHei UI"@,
            "Noto Sans CJK TW"@,
            "Noto Sans TW"@,
            "Source Han Sans TW"@,
        ],
        LanguageCode::ZhHantHK => seq![
            "PingFang HK"@,
            "Noto Sans CJK HK"@,
            "Noto Sans HK"@,
            "Source Han Sans HK"@,
        ],
        LanguageCode::Ja => seq![
            "Hiragino Sans"@,
            "Yu Gothic UI"@,
            "Noto Sans JP"@,
            "Noto Sans CJK JP"@,
            "Source Han Sans JP"@,
            "MS Gothic"@,
        ],
        LanguageCode::Ko => seq![
            "Apple SD Gothic Neo"@,
            "Malgun Gothic"@,
            "Noto Sans KR"@,
            "Noto Sans CJK KR"@,
            "Source Han Sans KR"@,
        ],
        LanguageCode::Ar => seq![
            "Noto Sans Arabic"@,
            "Amiri"@,
            "Lateef"@,
            "Al Tarikh"@,
            "Segoe UI"@,
        ],
    }
}

/// The views of a list of string slices.
pub open spec fn str_views(v: Seq<&'static str>) -> Seq<Seq<char>> {
    v.map_values(|x: &'static str| x@)
}

/// The language code closest to a language tag, judged by the tag's parts
/// between `-`: Simplified Chinese for `zh`, `zh-CN`, anything with `Hans`,
/// or `cmn` without `Hant`; other `zh` tags are Traditional Chinese of Hong
/// Kong where `HK` occurs, else of Taiwan; then Japanese, Korean and Arabic
/// by language or region.
pub open spec fn most_similar(tag: Seq<char>) -> Option<LanguageCode> {
    let parts = split_on(tag, '-');
    if parts == seq!["zh"@] || parts == seq!["zh"@, "CN"@] || parts.contains("Hans"@) || (
    parts.contains("cmn"@) && !parts.contains("Hant"@)) {
        Some(LanguageCode::ZhHans)
    } else if parts[0] == "zh"@ {
        if parts.contains("HK"@) {
            Some(LanguageCode::ZhHantHK)
        } else {
            Some(LanguageCode::ZhHantTW)
        }
    } else if parts[0] == "ja"@ || parts.contains("JP"@) || parts.contains("jpn"@) {
        Some(LanguageCode::Ja)
    } else if parts[0] == "ko"@ || parts.contains("KR"@) || parts.contains("kor"@) {
        Some(LanguageCode::Ko)
    } else if parts[0] == "ar"@ || parts.contains("ara"@) {
        Some(LanguageCode::Ar)
    } else {
        None
    }
}

/// The codes of the tags that have one, in order.
pub open spec fn recognized(tags: Seq<Seq<char>>) -> Seq<LanguageCode>
    decreases tags.len(),
{
    if tags.len() == 0 {
        Seq::empty()
    } else {
        let before = recognized(tags.drop_last());
        match most_similar(tags.last()) {
            Some(c) => before.push(c),
            None => before,
        }
    }
}

/// Each code at its first occurrence.
pub open spec fn first_occurrences(s: Seq<LanguageCode>) -> Seq<LanguageCode>
    decreases s.len(),
{
    if s.len() == 0 {
        Seq::empty()
    } else {
        let before = first_occurrences(s.drop_last());
        if before.contains(s.last()) {
            before
        } else {
            before.push(s.last())
        }
    }
}

/// Whether a code is of Traditional Chinese.
pub open spec fn is_hant(c: LanguageCode) -> bool {
    c == LanguageCode::ZhHantTW || c == LanguageCode::ZhHantHK
}

/// Whether some code of a list is of Traditional Chinese.
pub open spec fn has_hant(s: Seq<LanguageCode>) -> bool {
    s.contains(LanguageCode::ZhHantTW) || s.contains(LanguageCode::ZhHantHK)
}

/// The codes of `s` that are not in `taken` and are of Traditional Chinese,
/// in order.
pub open spec fn hant_rest(s: Seq<LanguageCode>, taken: Seq<LanguageCode>) -> Seq<LanguageCode>
    decreases s.len(),
{
    if s.len() == 0 {
        Seq::empty()
    } else {
        let before = hant_rest(s.drop_last(), taken);
        if !taken.contains(s.last()) && is_hant(s.last()) {
            before.push(s.last())
        } else {
            before
        }
    }
}

/// The codes of `s` that are not in `taken`, leaving out those of
/// Traditional Chinese where `skip_hant` holds, in order.
pub open spec fn rest_codes(s: Seq<LanguageCode>, taken: Seq<LanguageCode>, skip_hant: bool) -> Seq<
    LanguageCode,
>
    decreases s.len(),
{
    if s.len() == 0 {
        Seq::empty()
    } else {
        let before = rest_codes(s.drop_last(), taken, skip_hant);
        if !taken.contains(s.last()) && !(skip_hant && is_hant(s.last())) {
            before.push(s.last())
        } else {
            before
        }
    }
}

/// The order in which to try the fonts of each language: the languages of
/// the user's tags first, at their first mention; then, where one of them is
/// Traditional Chinese, the other Traditional Chinese codes; then the rest in
/// their default order.
pub open spec fn code_list(tags: Seq<Seq<char>>) -> Seq<LanguageCode> {
    let firsts = first_occurrences(recognized(tags));
    if has_hant(firsts) {
        firsts + hant_rest(all_codes(), firsts) + rest_codes(all_codes(), firsts, true)
    } else {
        firsts + rest_codes(all_codes(), firsts, false)
    }
}

/// Whether the pieces are exactly the given words.
fn parts_are(parts: &Vec<Vec<char>>, words: &[&'static str]) -> (r: bool)
    ensures
        r == (views(parts@) == str_views(words@)),
{
    if parts.len() != words.len() {
        return false;
    }
    let mut i: usize = 0;
    while i < parts.len()
        invariant
            parts@.len() == words@.len(),
            i <= parts@.len(),
            forall|j: int| 0 <= j < i ==> views(parts@)[j] == str_views(words@)[j],
        decreases parts@.len() - i,
    {
        if !str_eq_chars(words[i], parts[i].as_slice()) {
            assert(views(parts@)[i as int] != str_views(words@)[i as int]);
            return false;
        }
        i = i + 1;
    }
    assert(views(parts@) =~= str_views(words@));
    true
}

/// Whether the first piece is the given word.
fn first_is(parts: &Vec<Vec<char>>, word: &str) -> (r: bool)
    requires
        parts@.len() >= 1,
    ensures
        r == (views(parts@)[0] == word@),
{
    str_eq_chars(word, parts[0].as_slice())
}

impl LanguageCode {
    /// The written form of the code.
    pub fn name(&self) -> (r: &'static str)
        ensures
            r@ == code_text(*self),
    {
        match self {
            LanguageCode::ZhHans => "zh-Hans",
            LanguageCode::ZhHantTW => "zh-Hant-TW",
            LanguageCode::ZhHantHK => "zh-Hant-HK",
            LanguageCode::Ja => "ja",
            LanguageCode::Ko => "ko",
            LanguageCode::Ar => "ar",
        }
    }

    /// Every language code, in the order fonts are tried by default.
    pub fn all() -> (r: Vec<Self>)
        ensures
            r@ == all_codes(),
    {
        let r = vec![
            LanguageCode::ZhHans,
            LanguageCode::ZhHantTW,
            LanguageCode::ZhHantHK,
            LanguageCode::Ja,
            LanguageCode::Ko,
            LanguageCode::Ar,
        ];
        assert(r@ =~= all_codes());
        r
    }

    /// The font families to try for the language, best first.
    pub fn preferred_font_names(&self) -> (r: Vec<&'static str>)
        ensures
            str_views(r@) == font_names(*self),
    {
        let r = match self {
            LanguageCode::ZhHans => vec![
                "PingFang SC",
                "Microsoft YaHei UI",
                "Noto Sans CJK SC",
                "Noto Sans SC",
                "Source Han Sans CN",
                "WenQuanYi Zen Hei",
                "SimSun",
            ],
            LanguageCode::ZhHantTW => vec![
                "PingFang TC",
                "Microsoft JhengHei UI",
                "Noto Sans CJK TW",
                "Noto Sans TW",
                "Source Han Sans TW",
            ],
            LanguageCode::ZhHantHK => vec![
                "PingFang HK",
                "Noto Sans CJK HK",
                "Noto Sans HK",
                "Source Han Sans HK",
            ],
            LanguageCode::Ja => vec![
                "Hiragino Sans",
                "Yu Gothic UI",
                "Noto Sans JP",
                "Noto Sans CJK JP",
                "Source Han Sans JP",
                "MS Gothic",
            ],
            LanguageCode::Ko => vec![
                "Apple SD Gothic Neo",
                "Malgun Gothic",
                "Noto Sans KR",
                "Noto Sans CJK KR",
                "Source Han Sans KR",
            ],
            LanguageCode::Ar => vec![
                "Noto Sans Arabic",
                "Amiri",
                "Lateef",
                "Al Tarikh",
                "Segoe UI",
            ],
        };
        assert(str_views(r@) =~= font_names(*self));
        r
    }

    /// The language code closest to a language tag, if any.
    pub fn from_str_most_similar(str: &str) -> (r: Option<Self>)
        ensures
            r == most_similar(str@),
    {
        let parts = split_chars(str, '-');
        proof {
            lemma_split_nonempty(str@, '-');
            assert(str_views(seq!["zh"]) =~= seq!["zh"@]);
            assert(str_views(seq!["zh", "CN"]) =~= seq!["zh"@, "CN"@]);
        }
        if parts.len() == 0 {
            return None;
        }
        let zh_only: &[&'static str] = &["zh"];
        let zh_cn: &[&'static str] = &["zh", "CN"];
        proof {
            assert(zh_only@ =~= seq!["zh"]);
            assert(zh_cn@ =~= seq!["zh", "CN"]);
        }
        if parts_are(&parts, zh_only) || parts_are(&parts, zh_cn) || parts_contain(&parts, "Hans")
            || (parts_contain(&parts, "cmn") && !parts_contain(&parts, "Hant")) {
            Some(LanguageCode::ZhHans)
        } else if first_is(&parts, "zh") {
            if parts_contain(&parts, "HK") {
                Some(LanguageCode::ZhHantHK)
            } else {
                Some(LanguageCode::ZhHantTW)
            }
        } else if first_is(&parts, "ja") || parts_contain(&parts, "JP") || parts_contain(
            &parts,
            "jpn",
        ) {
            Some(LanguageCode::Ja)
        } else if first_is(&parts, "ko") || parts_contain(&parts, "KR") || parts_contain(
            &parts,
            "kor",
        ) {
            Some(LanguageCode::Ko)
        } else if first_is(&parts, "ar") || parts_contain(&parts, "ara") {
            Some(LanguageCode::Ar)
        } else {
            None
        }
    }
}

/// The views of a list of strings.
pub open spec fn string_views(v: Seq<String>) -> Seq<Seq<char>> {
    v.map_values(|x: String| x@)
}

/// Whether a list of codes holds a code.
fn codes_contain(v: &Vec<LanguageCode>, c: LanguageCode) -> (r: bool)
    ensures
        r == v@.contains(c),
{
    let mut i: usize = 0;
    while i < v.len()
        invariant
            i <= v@.len(),
            forall|j: int| 0 <= j < i ==> v@[j] != c,
        decreases v@.len() - i,
    {
        if v[i] == c {
            assert(v@[i as int] == c);
            return true;
        }
        i = i + 1;
    }
    false
}

fn is_hant_exec(c: LanguageCode) -> (r: bool)
    ensures
        r == is_hant(c),
{
    c == LanguageCode::ZhHantTW || c == LanguageCode::ZhHantHK
}

impl LanguageCode {
    /// The order in which to try the fonts of each language, by the language
    /// tags the user prefers.
    pub fn preferred_language_code_list(strs: &[String]) -> (r: Vec<Self>)
        ensures
            r@ == code_list(string_views(strs@)),
    {
        let ghost tags = string_views(strs@);
        let mut firsts: Vec<Self> = Vec::new();
        let mut i: usize = 0;
        while i < strs.len()
            invariant
                tags == string_views(strs@),
                i <= strs@.len(),
                firsts@ == first_occurrences(recognized(tags.take(i as int))),
            decreases strs@.len() - i,
        {
            proof {
                let t = tags.take(i as int + 1);
                assert(t.drop_last() =~= tags.take(i as int));
                assert(t.last() == strs@[i as int]@);
            }
            let ghost prev = recognized(tags.take(i as int));
            match Self::from_str_most_similar(strs[i].as_str()) {
                Some(code) => {
                    proof {
                        assert(recognized(tags.take(i as int + 1)) == prev.push(code));
                        assert(prev.push(code).drop_last() =~= prev);
                        assert(prev.push(code).last() == code);
                    }
                    if !codes_contain(&firsts, code) {
                        firsts.push(code);
                    }
                },
                None => {
                    assert(recognized(tags.take(i as int + 1)) == prev);
                },
            }
            i = i + 1;
        }
        assert(tags.take(strs@.len() as int) =~= tags);
        let prefers_hant = codes_contain(&firsts, LanguageCode::ZhHantTW) || codes_contain(
            &firsts,
            LanguageCode::ZhHantHK,
        );
        let all = Self::all();
        let mut out: Vec<Self> = Vec::new();
        let mut k: usize = 0;
        while k < firsts.len()
            invariant
                k <= firsts@.len(),
                out@ == firsts@.take(k as int),
            decreases firsts@.len() - k,
        {
            out.push(firsts[k]);
            k = k + 1;
            assert(out@ =~= firsts@.take(k as int));
        }
        assert(firsts@.take(firsts@.len() as int) =~= firsts@);
        if prefers_hant {
            let mut j: usize = 0;
            while j < all.len()
                invariant
                    all@ == all_codes(),
                    j <= all@.len(),
                    out@ == firsts@ + hant_rest(all@.take(j as int), firsts@),
                decreases all@.len() - j,
            {
                let c = all[j];
                proof {
                    let t = all@.take(j as int + 1);
                    assert(t.drop_last() =~= all@.take(j as int));
                    assert(t.last() == c);
                }
                if !codes_contain(&firsts, c) && is_hant_exec(c) {
                    out.push(c);
                }
                j = j + 1;
            }
            assert(all@.take(all@.len() as int) =~= all@);
        }
        let ghost mid = out@;
        let mut j: usize = 0;
        while j < all.len()
            invariant
                all@ == all_codes(),
                j <= all@.len(),
                out@ == mid + rest_codes(all@.take(j as int), firsts@, prefers_hant),
            decreases all@.len() - j,
        {
            let c = all[j];
            proof {
                let t = all@.take(j as int + 1);
                assert(t.drop_last() =~= all@.take(j as int));
                assert(t.last() == c);
            }
            if !codes_contain(&firsts, c) && !(prefers_hant && is_hant_exec(c)) {
                out.push(c);
            }
            j = j + 1;
        }
        assert(all@.take(all@.len() as int) =~= all@);
        out
    }

    /// For each language, in the order to try them, the font families to try.
    pub fn preferred_font_name_list(strs: &[String]) -> (r: Vec<(LanguageCode, Vec<&'static str>)>)
        ensures
            r@.len() == code_list(string_views(strs@)).len(),
            forall|i: int|
                0 <= i < r@.len() ==> (#[trigger] r@[i]).0 == code_list(string_views(strs@))[i]
                    && str_views(r@[i].1@) == font_names(r@[i].0),
    {
        let codes = Self::preferred_language_code_list(strs);
        let mut font_names_list: Vec<(LanguageCode, Vec<&'static str>)> = Vec::new();
        let mut i: usize = 0;
        while i < codes.len()
            invariant
                i <= codes@.len(),
                font_names_list@.len() == i,
                forall|j: int|
                    0 <= j < i ==> (#[trigger] font_names_list@[j]).0 == codes@[j]
                        && str_views(font_names_list@[j].1@) == font_names(font_names_list@[j].0),
            decreases codes@.len() - i,
        {
            let code = codes[i];
            font_names_list.push((code, code.preferred_font_names()));
            i = i + 1;
        }
        font_names_list
    }
}

proof fn lemma_push_no_dup(s: Seq<LanguageCode>, x: LanguageCode)
    requires
        s.no_duplicates(),
        !s.contains(x),
    ensures
        s.push(x).no_duplicates(),
{
    assert forall|i: int, j: int| 0 <= i < s.push(x).len() && 0 <= j < s.push(x).len() && i != j
        implies s.push(x)[i] != s.push(x)[j] by {
        if i < s.len() && j < s.len() {
        } else if i < s.len() {
            assert(s.contains(s[i]));
        } else if j < s.len() {
            assert(s.contains(s[j]));
        }
    }
}

proof fn lemma_first_occurrences(s: Seq<LanguageCode>)
    ensures
        first_occurrences(s).no_duplicates(),
        forall|x: LanguageCode| #[trigger] first_occurrences(s).contains(x) <==> s.contains(x),
    decreases s.len(),
{
    broadcast use vstd::seq_lib::lemma_seq_contains_after_push;

    if s.len() > 0 {
        let before = first_occurrences(s.drop_last());
        lemma_first_occurrences(s.drop_last());
        assert(s.drop_last().push(s.last()) =~= s);
        if !before.contains(s.last()) {
            lemma_push_no_dup(before, s.last());
        }
    }
}

proof fn lemma_rest_codes(s: Seq<LanguageCode>, taken: Seq<LanguageCode>, skip_hant: bool)
    requires
        s.no_duplicates(),
    ensures
        rest_codes(s, taken, skip_hant).no_duplicates(),
        forall|x: LanguageCode| #[trigger]
            rest_codes(s, taken, skip_hant).contains(x) <==> (s.contains(x) && !taken.contains(x)
                && !(skip_hant && is_hant(x))),
    decreases s.len(),
{
    broadcast use vstd::seq_lib::lemma_seq_contains_after_push;

    if s.len() > 0 {
        let d = s.drop_last();
        assert(d.push(s.last()) =~= s);
        assert(d.no_duplicates());
        assert(!d.contains(s.last())) by {
            if d.contains(s.last()) {
                let k = choose|k: int| 0 <= k < d.len() && d[k] == s.last();
                assert(s[k] == s[s.len() - 1]);
            }
        }
        lemma_rest_codes(d, taken, skip_hant);
        let before = rest_codes(d, taken, skip_hant);
        if !taken.contains(s.last()) && !(skip_hant && is_hant(s.last())) {
            lemma_push_no_dup(before, s.last());
        }
    }
}

proof fn lemma_hant_rest(s: Seq<LanguageCode>, taken: Seq<LanguageCode>)
    requires
        s.no_duplicates(),
    ensures
        hant_rest(s, taken).no_duplicates(),
        forall|x: LanguageCode| #[trigger]
            hant_rest(s, taken).contains(x) <==> (s.contains(x) && !taken.contains(x) && is_hant(x)),
    decreases s.len(),
{
    broadcast use vstd::seq_lib::lemma_seq_contains_after_push;

    if s.len() > 0 {
        let d = s.drop_last();
        assert(d.push(s.last()) =~= s);
        assert(d.no_duplicates());
        assert(!d.contains(s.last())) by {
            if d.contains(s.last()) {
                let k = choose|k: int| 0 <= k < d.len() && d[k] == s.last();
                assert(s[k] == s[s.len() - 1]);
            }
        }
        lemma_hant_rest(d, taken);
        let before = hant_rest(d, taken);
        if !taken.contains(s.last()) && is_hant(s.last()) {
            lemma_push_no_dup(before, s.last());
        }
    }
}

proof fn lemma_all_codes()
    ensures
        all_codes().no_duplicates(),
        forall|x: LanguageCode| #[trigger] all_codes().contains(x),
{
    let a = all_codes();
    assert forall|x: LanguageCode| #[trigger] a.contains(x) by {
        match x {
            LanguageCode::ZhHans => assert(a[0] == x),
            LanguageCode::ZhHantTW => assert(a[1] == x),
            LanguageCode::ZhHantHK => assert(a[2] == x),
            LanguageCode::Ja => assert(a[3] == x),
            LanguageCode::Ko => assert(a[4] == x),
            LanguageCode::Ar => assert(a[5] == x),
        }
    }
}

/// The order of languages is an ordering of all of them: each language code
/// occurs exactly once, whatever tags the user prefers.
pub proof fn law_code_list_is_permutation(tags: Seq<Seq<char>>)
    ensures
        code_list(tags).no_duplicates(),
        forall|c: LanguageCode| #[trigger] code_list(tags).contains(c),
        code_list(tags).len() == all_codes().len(),
{
    broadcast use vstd::seq_lib::lemma_seq_concat_contains_all_elements;

    lemma_all_codes();
    let firsts = first_occurrences(recognized(tags));
    lemma_first_occurrences(recognized(tags));
    let list = code_list(tags);
    if has_hant(firsts) {
        let h = hant_rest(all_codes(), firsts);
        let r = rest_codes(all_codes(), firsts, true);
        lemma_hant_rest(all_codes(), firsts);
        lemma_rest_codes(all_codes(), firsts, true);
        assert forall|i: int, j: int| 0 <= i < firsts.len() && 0 <= j < h.len() implies firsts[i]
            != h[j] by {
            assert(h.contains(h[j]));
            assert(firsts.contains(firsts[i]));
        }
        vstd::seq_lib::lemma_no_dup_in_concat(firsts, h);
        assert forall|i: int, j: int| 0 <= i < (firsts + h).len() && 0 <= j < r.len() implies (
        firsts + h)[i] != r[j] by {
            assert(r.contains(r[j]));
            assert((firsts + h).contains((firsts + h)[i]));
        }
        vstd::seq_lib::lemma_no_dup_in_concat(firsts + h, r);
        assert forall|c: LanguageCode| #[trigger] list.contains(c) by {
            assert(all_codes().contains(c));
        }
    } else {
        let r = rest_codes(all_codes(), firsts, false);
        lemma_rest_codes(all_codes(), firsts, false);
        assert forall|i: int, j: int| 0 <= i < firsts.len() && 0 <= j < r.len() implies firsts[i]
            != r[j] by {
            assert(r.contains(r[j]));
            assert(firsts.contains(firsts[i]));
        }
        vstd::seq_lib::lemma_no_dup_in_concat(firsts, r);
        assert forall|c: LanguageCode| #[trigger] list.contains(c) by {
            assert(all_codes().contains(c));
        }
    }
    lemma_permutation_len(list);
}

proof fn lemma_permutation_len(list: Seq<LanguageCode>)
    requires
        list.no_duplicates(),
        forall|c: LanguageCode| #[trigger] list.contains(c),
    ensures
        list.len() == all_codes().len(),
{
    lemma_all_codes();
    list.unique_seq_to_set();
    all_codes().unique_seq_to_set();
    assert(list.to_set() =~= all_codes().to_set());
}

/// The language codes of the locale names that have one, in order.
pub open spec fn parsed_all(names: Seq<Seq<char>>) -> Seq<Seq<char>>
    decreases names.len(),
{
    if names.len() == 0 {
        Seq::empty()
    } else {
        let before = parsed_all(names.drop_last());
        match spec_parse_lc(names.last()) {
            Some(p) => before.push(p),
            None => before,
        }
    }
}

/// The language codes of an optional locale name.
pub open spec fn parsed_opt(name: Option<Seq<char>>) -> Seq<Seq<char>> {
    match name {
        Some(n) => match spec_parse_lc(n) {
            Some(p) => seq![p],
            None => Seq::empty(),
        },
        None => Seq::empty(),
    }
}

/// The view of an optional string slice.
pub open spec fn opt_view(s: Option<&str>) -> Option<Seq<char>> {
    match s {
        Some(t) => Some(t@),
        None => None,
    }
}

/// The user's language codes by the locale variables: `LC_ALL` alone where
/// it names one; else those of `LANGUAGE` (a list separated by `:`), then
/// of `LC_MESSAGES`, then of `LANG`.
pub open spec fn env_codes(
    lc_all: Option<Seq<char>>,
    language: Option<Seq<char>>,
    lc_messages: Option<Seq<char>>,
    lang: Option<Seq<char>>,
) -> Seq<Seq<char>> {
    if parsed_opt(lc_all).len() > 0 {
        parsed_opt(lc_all)
    } else {
        let from_language = match language {
            Some(l) => parsed_all(split_on(l, ':')),
            None => Seq::empty(),
        };
        from_language + parsed_opt(lc_messages) + parsed_opt(lang)
    }
}

fn push_parsed(out: &mut Vec<String>, name: Option<&str>)
    ensures
        final(out)@.map_values(|x: String| x@) == old(out)@.map_values(|x: String| x@) + parsed_opt(
            opt_view(name),
        ),
{
    match name {
        Some(n) => match parse_lc(n) {
            Some(p) => {
                let ghost before = out@;
                out.push(p);
                assert(out@.map_values(|x: String| x@) =~= before.map_values(|x: String| x@)
                    + parsed_opt(opt_view(name)));
            },
            None => {
                assert(out@.map_values(|x: String| x@) =~= out@.map_values(|x: String| x@)
                    + parsed_opt(opt_view(name)));
            },
        },
        None => {
            assert(out@.map_values(|x: String| x@) =~= out@.map_values(|x: String| x@)
                + parsed_opt(opt_view(name)));
        },
    }
}

/// The user's language codes, from the values of the locale variables
/// `LC_ALL`, `LANGUAGE`, `LC_MESSAGES` and `LANG`.
pub fn language_codes_from_env(
    lc_all: Option<&str>,
    language: Option<&str>,
    lc_messages: Option<&str>,
    lang: Option<&str>,
) -> (r: Vec<String>)
    ensures
        string_views(r@) == env_codes(
            opt_view(lc_all),
            opt_view(language),
            opt_view(lc_messages),
            opt_view(lang),
        ),
{
    if let Some(all) = lc_all {
        if let Some(parsed) = parse_lc(all) {
            let mut v: Vec<String> = Vec::new();
            v.push(parsed);
            assert(string_views(v@) =~= parsed_opt(opt_view(lc_all)));
            return v;
        }
    }
    let mut result: Vec<String> = Vec::new();
    if let Some(l) = language {
        let parts = split_chars(l, ':');
        let mut i: usize = 0;
        while i < parts.len()
            invariant
                i <= parts@.len(),
                views(parts@) == split_on(l@, ':'),
                string_views(result@) == parsed_all(views(parts@).take(i as int)),
            decreases parts@.len() - i,
        {
            let part = crate::textbuf::string_of(parts[i].as_slice());
            proof {
                let t = views(parts@).take(i as int + 1);
                assert(t.drop_last() =~= views(parts@).take(i as int));
                assert(t.last() == part@);
            }
            let ghost before = result@;
            push_parsed(&mut result, Some(part.as_str()));
            assert(string_views(result@) =~= string_views(before) + parsed_opt(Some(part@)));
            i = i + 1;
        }
        assert(views(parts@).take(parts@.len() as int) =~= views(parts@));
    } else {
        assert(string_views(result@) =~= Seq::<Seq<char>>::empty());
    }
    push_parsed(&mut result, lc_messages);
    push_parsed(&mut result, lang);
    result
}

/// Whether a language's fonts also cover Chinese characters.
pub open spec fn spec_supports_chinese(c: LanguageCode) -> bool {
    c == LanguageCode::ZhHans || c == LanguageCode::ZhHantTW || c == LanguageCode::ZhHantHK || c
        == LanguageCode::Ja
}

impl LanguageCode {
    /// Whether the language's fonts also cover Chinese characters.
    pub fn supports_chinese_characters(&self) -> (r: bool)
        ensures
            r == spec_supports_chinese(*self),
    {
        match self {
            LanguageCode::ZhHans | LanguageCode::ZhHantTW | LanguageCode::ZhHantHK
            | LanguageCode::Ja => true,
            _ => false,
        }
    }
}

/// What to do with the next language while loading system fonts: look up
/// its fonts, or skip it.
#[derive(Debug, Clone, Copy, PartialEq, Eq, Structural)]
pub enum FontStep {
    Load,
    Skip,
}

/// Loading system fonts language by language: once a font covering Chinese
/// characters was loaded, the other languages of that kind are skipped.
pub struct FontLoading {
    has_loaded_font_supporting_chinese_characters: bool,
}

/// The step for a language, given whether a font covering Chinese
/// characters was loaded already.
pub open spec fn font_step(has_chinese: bool, c: LanguageCode) -> FontStep {
    if spec_supports_chinese(c) && has_chinese {
        FontStep::Skip
    } else {
        FontStep::Load
    }
}

/// Whether a font covering Chinese characters was loaded, after a language
/// whose lookup found a font or not.
pub open spec fn after_lookup(has_chinese: bool, c: LanguageCode, found: bool) -> bool {
    has_chinese || (found && spec_supports_chinese(c))
}

impl FontLoading {
    /// Whether a font covering Chinese characters was loaded.
    pub closed spec fn has_chinese(&self) -> bool {
        self.has_loaded_font_supporting_chinese_characters
    }

    /// Nothing loaded yet.
    pub fn new() -> (r: Self)
        ensures
            !r.has_chinese(),
    {
        FontLoading { has_loaded_font_supporting_chinese_characters: false }
    }

    /// The step for the next language.
    pub fn step(&self, code: LanguageCode) -> (r: FontStep)
        ensures
            r == font_step(self.has_chinese(), code),
    {
        if code.supports_chinese_characters() && self.has_loaded_font_supporting_chinese_characters {
            FontStep::Skip
        } else {
            FontStep::Load
        }
    }

    /// Records the outcome of looking up a language's fonts.
    pub fn record(&mut self, code: LanguageCode, found: bool)
        ensures
            final(self).has_chinese() == after_lookup(old(self).has_chinese(), code, found),
    {
        if found && code.supports_chinese_characters() {
            self.has_loaded_font_supporting_chinese_characters = true;
        }
    }
}

/// The languages whose fonts get loaded, when languages come in order with
/// whether their lookup would find a font: those not skipped whose lookup
/// found one.
pub open spec fn loaded_codes(codes: Seq<LanguageCode>, found: Seq<bool>, has_chinese: bool) -> Seq<
    LanguageCode,
>
    decreases codes.len(),
{
    if codes.len() == 0 || found.len() == 0 {
        Seq::empty()
    } else {
        let c = codes[0];
        if font_step(has_chinese, c) == FontStep::Skip {
            loaded_codes(codes.drop_first(), found.drop_first(), has_chinese)
        } else if found[0] {
            seq![c] + loaded_codes(
                codes.drop_first(),
                found.drop_first(),
                after_lookup(has_chinese, c, true),
            )
        } else {
            loaded_codes(codes.drop_first(), found.drop_first(), has_chinese)
        }
    }
}

/// The number of codes in a list whose fonts cover Chinese characters.
pub open spec fn chinese_count(s: Seq<LanguageCode>) -> nat
    decreases s.len(),
{
    if s.len() == 0 {
        0
    } else {
        (if spec_supports_chinese(s[0]) {
            1nat
        } else {
            0nat
        }) + chinese_count(s.drop_first())
    }
}

/// At most one font covering Chinese characters is loaded, and none once
/// one was loaded before.
pub proof fn law_one_chinese_font(codes: Seq<LanguageCode>, found: Seq<bool>, has_chinese: bool)
    ensures
        chinese_count(loaded_codes(codes, found, has_chinese)) <= 1,
        has_chinese ==> chinese_count(loaded_codes(codes, found, has_chinese)) == 0,
    decreases codes.len(),
{
    if codes.len() > 0 && found.len() > 0 {
        let c = codes[0];
        law_one_chinese_font(codes.drop_first(), found.drop_first(), has_chinese);
        law_one_chinese_font(codes.drop_first(), found.drop_first(), after_lookup(has_chinese, c, true));
        if font_step(has_chinese, c) != FontStep::Skip && found[0] {
            let rest = loaded_codes(codes.drop_first(), found.drop_first(), after_lookup(has_chinese, c, true));
            let l = seq![c] + rest;
            assert(l[0] == c);
            assert(l.drop_first() =~= rest);
        }
    }
}

/// A language tag one of whose parts between `-` is `Hans` names Simplified
/// Chinese, whatever its other parts; and a user who prefers such a tag
/// alone gets the Simplified Chinese fonts first, then the others in their
/// default order.
pub proof fn law_hans_means_simplified(tag: Seq<char>)
    requires
        split_on(tag, '-').contains("Hans"@),
    ensures
        most_similar(tag) == Some(LanguageCode::ZhHans),
        code_list(seq![tag]) == seq![
            LanguageCode::ZhHans,
            LanguageCode::ZhHantTW,
            LanguageCode::ZhHantHK,
            LanguageCode::Ja,
            LanguageCode::Ko,
            LanguageCode::Ar,
        ],
{
    let tags = seq![tag];
    assert(most_similar(tag) == Some(LanguageCode::ZhHans));
    assert(tags.drop_last() =~= Seq::<Seq<char>>::empty());
    assert(tags.last() == tag);
    assert(recognized(tags.drop_last()) == Seq::<LanguageCode>::empty());
    assert(recognized(tags) =~= Seq::<LanguageCode>::empty().push(LanguageCode::ZhHans));
    let r = seq![LanguageCode::ZhHans];
    assert(r.drop_last() =~= Seq::<LanguageCode>::empty());
    assert(r.last() == LanguageCode::ZhHans);
    assert(first_occurrences(r.drop_last()) == Seq::<LanguageCode>::empty());
    assert(!Seq::<LanguageCode>::empty().contains(LanguageCode::ZhHans));
    assert(first_occurrences(r) =~= Seq::<LanguageCode>::empty().push(LanguageCode::ZhHans));
    assert(!has_hant(r)) by {
        if r.contains(LanguageCode::ZhHantTW) {
            let k = choose|k: int| 0 <= k < r.len() && r[k] == LanguageCode::ZhHantTW;
        }
        if r.contains(LanguageCode::ZhHantHK) {
            let k = choose|k: int| 0 <= k < r.len() && r[k] == LanguageCode::ZhHantHK;
        }
    }
    let a = all_codes();
    assert forall|c: LanguageCode| c != LanguageCode::ZhHans implies !r.contains(c) by {
        if r.contains(c) {
            let k = choose|k: int| 0 <= k < r.len() && r[k] == c;
        }
    }
    assert(r.contains(LanguageCode::ZhHans)) by {
        assert(r[0] == LanguageCode::ZhHans);
    }
    assert(a.take(1).drop_last() =~= a.take(0));
    assert(a.take(2).drop_last() =~= a.take(1));
    assert(a.take(3).drop_last() =~= a.take(2));
    assert(a.take(4).drop_last() =~= a.take(3));
    assert(a.take(5).drop_last() =~= a.take(4));
    assert(a.take(6).drop_last() =~= a.take(5));
    assert(a.take(6) =~= a);
    assert(rest_codes(a.take(0), r, false) =~= Seq::<LanguageCode>::empty());
    assert(rest_codes(a.take(1), r, false) =~= Seq::<LanguageCode>::empty());
    assert(rest_codes(a.take(2), r, false) =~= seq![LanguageCode::ZhHantTW]);
    assert(rest_codes(a.take(3), r, false) =~= seq![LanguageCode::ZhHantTW, LanguageCode::ZhHantHK]);
    assert(rest_codes(a.take(4), r, false) =~= seq![
        LanguageCode::ZhHantTW,
        LanguageCode::ZhHantHK,
        LanguageCode::Ja,
    ]);
    assert(rest_codes(a.take(5), r, false) =~= seq![
        LanguageCode::ZhHantTW,
        LanguageCode::ZhHantHK,
        LanguageCode::Ja,
        LanguageCode::Ko,
    ]);
    assert(rest_codes(a, r, false) =~= seq![
        LanguageCode::ZhHantTW,
        LanguageCode::ZhHantHK,
        LanguageCode::Ja,
        LanguageCode::Ko,
        LanguageCode::Ar,
    ]);
    assert(code_list(tags) =~= seq![
        LanguageCode::ZhHans,
        LanguageCode::ZhHantTW,
        LanguageCode::ZhHantHK,
        LanguageCode::Ja,
        LanguageCode::Ko,
        LanguageCode::Ar,
    ]);
}

proof fn lemma_first_occurrences_head(s: Seq<LanguageCode>)
    requires
        s.len() > 0,
    ensures
        first_occurrences(s).len() > 0,
        first_occurrences(s)[0] == s[0],
    decreases s.len(),
{
    if s.len() == 1 {
        assert(s.drop_last() =~= Seq::<LanguageCode>::empty());
        assert(first_occurrences(s.drop_last()) == Seq::<LanguageCode>::empty());
        assert(!Seq::<LanguageCode>::empty().contains(s.last()));
        assert(first_occurrences(s) =~= Seq::<LanguageCode>::empty().push(s[0]));
    } else {
        lemma_first_occurrences_head(s.drop_last());
        assert(s.drop_last()[0] == s[0]);
    }
}

/// The languages of the user's tags are tried before every other: the
/// language of the first tag that names one comes first, and a language that
/// some tag names never follows one that no tag names.
pub proof fn law_preferred_languages_first(tags: Seq<Seq<char>>)
    ensures
        recognized(tags).len() > 0 ==> code_list(tags)[0] == recognized(tags)[0],
        forall|i: int, j: int|
            0 <= i < j < code_list(tags).len() && recognized(tags).contains(
                #[trigger] code_list(tags)[j],
            ) ==> recognized(tags).contains(#[trigger] code_list(tags)[i]),
{
    let r = recognized(tags);
    let firsts = first_occurrences(r);
    lemma_first_occurrences(r);
    lemma_all_codes();
    lemma_hant_rest(all_codes(), firsts);
    lemma_rest_codes(all_codes(), firsts, true);
    lemma_rest_codes(all_codes(), firsts, false);
    let list = code_list(tags);
    if r.len() > 0 {
        lemma_first_occurrences_head(r);
    }
    let rest = if has_hant(firsts) {
        hant_rest(all_codes(), firsts) + rest_codes(all_codes(), firsts, true)
    } else {
        rest_codes(all_codes(), firsts, false)
    };
    assert(list =~= firsts + rest);
    assert forall|k: int| 0 <= k < rest.len() implies !firsts.contains(#[trigger] rest[k]) by {
        if has_hant(firsts) {
            let h = hant_rest(all_codes(), firsts);
            let o = rest_codes(all_codes(), firsts, true);
            if k < h.len() {
                assert(rest[k] == h[k]);
                assert(h.contains(h[k]));
            } else {
                assert(rest[k] == o[k - h.len()]);
                assert(o.contains(o[k - h.len()]));
            }
        } else {
            assert(rest.contains(rest[k]));
        }
    }
    assert forall|i: int, j: int|
        0 <= i < j < list.len() && r.contains(#[trigger] list[j]) implies r.contains(
        #[trigger] list[i]) by {
        if j >= firsts.len() {
            assert(list[j] == rest[j - firsts.len()]);
            assert(firsts.contains(list[j]));
        } else {
            assert(list[i] == firsts[i]);
            assert(firsts.contains(firsts[i]));
        }
    }
}

/// How a Chinese tag is read, by its parts between `-`: `zh` alone, `zh-CN`
/// and any tag with `cmn` but not `Hant` are Simplified Chinese; another tag
/// that starts with `zh`, has no `Hans` and no `cmn`, is Traditional Chinese of
/// Hong Kong where `HK` is one of its parts, and of Taiwan otherwise.
pub proof fn law_chinese_tags(tag: Seq<char>)
    ensures
        split_on(tag, '-') == seq!["zh"@] ==> most_similar(tag) == Some(LanguageCode::ZhHans),
        split_on(tag, '-') == seq!["zh"@, "CN"@] ==> most_similar(tag) == Some(
            LanguageCode::ZhHans,
        ),
        split_on(tag, '-').contains("cmn"@) && !split_on(tag, '-').contains("Hant"@)
            ==> most_similar(tag) == Some(LanguageCode::ZhHans),
        ({
            let parts = split_on(tag, '-');
            parts[0] == "zh"@ && parts != seq!["zh"@] && parts != seq!["zh"@, "CN"@]
                && !parts.contains("Hans"@) && !parts.contains("cmn"@) ==> most_similar(tag) == if parts.contains("HK"@) {
                Some(LanguageCode::ZhHantHK)
            } else {
                Some(LanguageCode::ZhHantTW)
            }
        }),
{
}

/// How other tags are read, where no part is `Hans` or `cmn` and the first
/// part is not `zh`: Japanese for the language `ja` or the parts `JP` or
/// `jpn`; else Korean for `ko`, `KR` or `kor`; else Arabic for `ar` or `ara`;
/// else no language that needs fonts of its own.
pub proof fn law_other_tags(tag: Seq<char>)
    requires
        !split_on(tag, '-').contains("Hans"@),
        !split_on(tag, '-').contains("cmn"@),
        split_on(tag, '-')[0] != "zh"@,
    ensures
        ({
            let parts = split_on(tag, '-');
            let ja = parts[0] == "ja"@ || parts.contains("JP"@) || parts.contains("jpn"@);
            let ko = parts[0] == "ko"@ || parts.contains("KR"@) || parts.contains("kor"@);
            let ar = parts[0] == "ar"@ || parts.contains("ara"@);
            &&& ja ==> most_similar(tag) == Some(LanguageCode::Ja)
            &&& !ja && ko ==> most_similar(tag) == Some(LanguageCode::Ko)
            &&& !ja && !ko && ar ==> most_similar(tag) == Some(LanguageCode::Ar)
            &&& !ja && !ko && !ar ==> most_similar(tag) is None
        }),
{
    let parts = split_on(tag, '-');
    assert(parts != seq!["zh"@]) by {
        if parts == seq!["zh"@] {
            assert(parts[0] == "zh"@);
        }
    }
    assert(parts != seq!["zh"@, "CN"@]) by {
        if parts == seq!["zh"@, "CN"@] {
            assert(parts[0] == "zh"@);
        }
    }
}

} // verus!
