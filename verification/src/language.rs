//! Guessing a subtitle's language from its file name, and the display names
//! of language codes.

use vstd::prelude::*;
use crate::text::{
    chars_of, contains, contains_exec, copy_range, first_pos, find_char, is_text, split_char,
    split_chars, starts_with, starts_with_exec, trim_start_char, trim_start_chars, utf8_len,
    utf8_len_capped, views,
};
use crate::trusted::{ascii_lower, is_ascii_text, lowercase, lowercase_of, string_of};

verus! {

/// The display name of a two- or three-letter language code; a code that is
/// not known is its own name.
pub open spec fn language_name(code: Seq<char>) -> Seq<char> {
    if code == "en"@ || code == "eng"@ {
        "English"@
    } else if code == "es"@ || code == "spa"@ {
        "Spanish"@
    } else if code == "fr"@ || code == "fre"@ {
        "French"@
    } else if code == "de"@ || code == "ger"@ {
        "German"@
    } else if code == "it"@ || code == "ita"@ {
        "Italian"@
    } else if code == "pt"@ || code == "por"@ {
        "Portuguese"@
    } else if code == "nl"@ || code == "dut"@ {
        "Dutch"@
    } else if code == "ru"@ || code == "rus"@ {
        "Russian"@
    } else if code == "ja"@ || code == "jpn"@ {
        "Japanese"@
    } else if code == "ko"@ || code == "kor"@ {
        "Korean"@
    } else if code == "zh"@ || code == "chi"@ {
        "Chinese"@
    } else if code == "ar"@ || code == "ara"@ {
        "Arabic"@
    } else if code == "hi"@ || code == "hin"@ {
        "Hindi"@
    } else if code == "sv"@ || code == "swe"@ {
        "Swedish"@
    } else if code == "no"@ || code == "nor"@ {
        "Norwegian"@
    } else if code == "da"@ || code == "dan"@ {
        "Danish"@
    } else if code == "fi"@ || code == "fin"@ {
        "Finnish"@
    } else if code == "pl"@ || code == "pol"@ {
        "Polish"@
    } else if code == "tr"@ || code == "tur"@ {
        "Turkish"@
    } else {
        code
    }
}

/// The display name of a language code (`"en"` and `"eng"` are `"English"`);
/// an unknown code comes back unchanged.
pub fn lang_name(code: &str) -> (name: &str)
    ensures
        name@ == language_name(code@),
{
    let v_owned = chars_of(code);
    let v = v_owned.as_slice();
    if is_text(v, "en") || is_text(v, "eng") {
        "English"
    } else if is_text(v, "es") || is_text(v, "spa") {
        "Spanish"
    } else if is_text(v, "fr") || is_text(v, "fre") {
        "French"
    } else if is_text(v, "de") || is_text(v, "ger") {
        "German"
    } else if is_text(v, "it") || is_text(v, "ita") {
        "Italian"
    } else if is_text(v, "pt") || is_text(v, "por") {
        "Portuguese"
    } else if is_text(v, "nl") || is_text(v, "dut") {
        "Dutch"
    } else if is_text(v, "ru") || is_text(v, "rus") {
        "Russian"
    } else if is_text(v, "ja") || is_text(v, "jpn") {
        "Japanese"
    } else if is_text(v, "ko") || is_text(v, "kor") {
        "Korean"
    } else if is_text(v, "zh") || is_text(v, "chi") {
        "Chinese"
    } else if is_text(v, "ar") || is_text(v, "ara") {
        "Arabic"
    } else if is_text(v, "hi") || is_text(v, "hin") {
        "Hindi"
    } else if is_text(v, "sv") || is_text(v, "swe") {
        "Swedish"
    } else if is_text(v, "no") || is_text(v, "nor") {
        "Norwegian"
    } else if is_text(v, "da") || is_text(v, "dan") {
        "Danish"
    } else if is_text(v, "fi") || is_text(v, "fin") {
        "Finnish"
    } else if is_text(v, "pl") || is_text(v, "pol") {
        "Polish"
    } else if is_text(v, "tr") || is_text(v, "tur") {
        "Turkish"
    } else {
        code
    }
}

/// The language code that a file-name component stands for: a code or name
/// of one of the known languages, or `sdh` (taken as English).
pub open spec fn code_for_part(p: Seq<char>) -> Option<Seq<char>> {
    if p == "en"@ || p == "eng"@ || p == "english"@ {
        Some("en"@)
    } else if p == "es"@ || p == "spa"@ || p == "spanish"@ {
        Some("es"@)
    } else if p == "fr"@ || p == "fre"@ || p == "french"@ {
        Some("fr"@)
    } else if p == "de"@ || p == "ger"@ || p == "german"@ {
        Some("de"@)
    } else if p == "it"@ || p == "ita"@ || p == "italian"@ {
        Some("it"@)
    } else if p == "pt"@ || p == "por"@ || p == "portuguese"@ {
        Some("pt"@)
    } else if p == "nl"@ || p == "dut"@ || p == "dutch"@ {
        Some("nl"@)
    } else if p == "ru"@ || p == "rus"@ || p == "russian"@ {
        Some("ru"@)
    } else if p == "ja"@ || p == "jpn"@ || p == "japanese"@ {
        Some("ja"@)
    } else if p == "ko"@ || p == "kor"@ || p == "korean"@ {
        Some("ko"@)
    } else if p == "zh"@ || p == "chi"@ || p == "chinese"@ {
        Some("zh"@)
    } else if p == "ar"@ || p == "ara"@ || p == "arabic"@ {
        Some("ar"@)
    } else if p == "hi"@ || p == "hin"@ || p == "hindi"@ {
        Some("hi"@)
    } else if p == "sv"@ || p == "swe"@ || p == "swedish"@ {
        Some("sv"@)
    } else if p == "no"@ || p == "nor"@ || p == "norwegian"@ {
        Some("no"@)
    } else if p == "da"@ || p == "dan"@ || p == "danish"@ {
        Some("da"@)
    } else if p == "fi"@ || p == "fin"@ || p == "finnish"@ {
        Some("fi"@)
    } else if p == "pl"@ || p == "pol"@ || p == "polish"@ {
        Some("pl"@)
    } else if p == "tr"@ || p == "tur"@ || p == "turkish"@ {
        Some("tr"@)
    } else if p == "sdh"@ {
        Some("en"@)
    } else {
        None
    }
}

fn code_for_part_exec(p: &[char]) -> (r: Option<&'static str>)
    ensures
        match r {
            Some(c) => code_for_part(p@) == Some(c@),
            None => code_for_part(p@) is None,
        },
{
    if is_text(p, "en") || is_text(p, "eng") || is_text(p, "english") {
        Some("en")
    } else if is_text(p, "es") || is_text(p, "spa") || is_text(p, "spanish") {
        Some("es")
    } else if is_text(p, "fr") || is_text(p, "fre") || is_text(p, "french") {
        Some("fr")
    } else if is_text(p, "de") || is_text(p, "ger") || is_text(p, "german") {
        Some("de")
    } else if is_text(p, "it") || is_text(p, "ita") || is_text(p, "italian") {
        Some("it")
    } else if is_text(p, "pt") || is_text(p, "por") || is_text(p, "portuguese") {
        Some("pt")
    } else if is_text(p, "nl") || is_text(p, "dut") || is_text(p, "dutch") {
        Some("nl")
    } else if is_text(p, "ru") || is_text(p, "rus") || is_text(p, "russian") {
        Some("ru")
    } else if is_text(p, "ja") || is_text(p, "jpn") || is_text(p, "japanese") {
        Some("ja")
    } else if is_text(p, "ko") || is_text(p, "kor") || is_text(p, "korean") {
        Some("ko")
    } else if is_text(p, "zh") || is_text(p, "chi") || is_text(p, "chinese") {
        Some("zh")
    } else if is_text(p, "ar") || is_text(p, "ara") || is_text(p, "arabic") {
        Some("ar")
    } else if is_text(p, "hi") || is_text(p, "hin") || is_text(p, "hindi") {
        Some("hi")
    } else if is_text(p, "sv") || is_text(p, "swe") || is_text(p, "swedish") {
        Some("sv")
    } else if is_text(p, "no") || is_text(p, "nor") || is_text(p, "norwegian") {
        Some("no")
    } else if is_text(p, "da") || is_text(p, "dan") || is_text(p, "danish") {
        Some("da")
    } else if is_text(p, "fi") || is_text(p, "fin") || is_text(p, "finnish") {
        Some("fi")
    } else if is_text(p, "pl") || is_text(p, "pol") || is_text(p, "polish") {
        Some("pl")
    } else if is_text(p, "tr") || is_text(p, "tur") || is_text(p, "turkish") {
        Some("tr")
    } else if is_text(p, "sdh") {
        Some("en")
    } else {
        None
    }
}

/// Pieces joined with `sep` between them (`[&str]::join`).
pub open spec fn join_with(ps: Seq<Seq<char>>, sep: char) -> Seq<char>
    decreases ps.len(),
{
    if ps.len() == 0 {
        seq![]
    } else if ps.len() == 1 {
        ps[0]
    } else {
        join_with(ps.drop_last(), sep) + seq![sep] + ps.last()
    }
}

/// The `.`-separated components of a file name except the last one, from the
/// right to the left, joined with `.` again (what
/// `rsplit('.').skip(1)` collected and joined gives).
pub open spec fn components_before_extension(name: Seq<char>) -> Seq<char> {
    join_with(split_char(name, '.').drop_last().reverse(), '.')
}

/// The language that a whole file name mentions: English, Spanish or French,
/// else undetermined.
pub open spec fn language_in_name(lower: Seq<char>) -> Seq<char> {
    if contains(lower, "english"@) {
        "en"@
    } else if contains(lower, "spanish"@) {
        "es"@
    } else if contains(lower, "french"@) {
        "fr"@
    } else {
        "und"@
    }
}

/// The component of a subtitle file name that follows the video's stem:
/// the lowercased name, without the lowercased stem when it starts with it,
/// without leading dots, up to the next dot.
pub open spec fn language_part(filename: Seq<char>, video_stem: Seq<char>) -> Seq<char> {
    let lower = lowercase_of(filename);
    let stem = lowercase_of(video_stem);
    let rest = if starts_with(lower, stem) {
        lower.skip(stem.len() as int)
    } else {
        lower
    };
    let suffix = trim_start_char(rest, '.');
    suffix.take(first_pos(suffix, '.') as int)
}

/// The language code guessed for a subtitle file: the known language that
/// the component after the stem names; else that component itself when its
/// UTF-8 form is two or three bytes long; else the language that the name
/// mentions as a whole; else `und`.
pub open spec fn guessed_language(filename: Seq<char>, video_stem: Seq<char>) -> Seq<char> {
    let part = language_part(filename, video_stem);
    match code_for_part(part) {
        Some(c) => c,
        None => if utf8_len(part) == 2 || utf8_len(part) == 3 {
            part
        } else {
            language_in_name(lowercase_of(components_before_extension(filename)))
        },
    }
}

fn lowercase_chars(v: &[char]) -> (r: Vec<char>)
    ensures
        r@ == lowercase_of(v@),
{
    let s = string_of(v);
    let l = lowercase(s.as_str());
    chars_of(l.as_str())
}

fn components_before_extension_exec(name: &[char]) -> (r: Vec<char>)
    ensures
        r@ == components_before_extension(name@),
{
    let ps = split_chars(name, '.');
    let ghost rev = views(ps@).drop_last().reverse();
    let mut out: Vec<char> = Vec::new();
    proof {
        crate::text::lemma_split_nonempty(name@, '.');
    }
    let n = ps.len() - 1;
    let mut k: usize = 0;
    proof {
        assert(rev.take(0) =~= Seq::<Seq<char>>::empty());
    }
    while k < n
        invariant
            n == ps@.len() - 1,
            k <= n,
            rev == views(ps@).drop_last().reverse(),
            rev.len() == n,
            out@ == join_with(rev.take(k as int), '.'),
        decreases n - k,
    {
        let piece = &ps[n - 1 - k];
        proof {
            assert(rev[k as int] == views(ps@)[n - 1 - k]);
            assert(views(ps@)[n - 1 - k] == piece@);
        }
        let ghost prev = out@;
        if k > 0 {
            out.push('.');
        }
        let mut j: usize = 0;
        let ghost mid = out@;
        while j < piece.len()
            invariant
                j <= piece@.len(),
                out@ == mid + piece@.take(j as int),
            decreases piece@.len() - j,
        {
            out.push(piece[j]);
            j += 1;
            proof {
                assert(out@ =~= mid + piece@.take(j as int));
            }
        }
        proof {
            assert(piece@.take(j as int) =~= piece@);
            let t = rev.take(k + 1);
            assert(t.drop_last() =~= rev.take(k as int));
            assert(t.last() == piece@);
            if k == 0 {
                assert(t.len() == 1);
                assert(out@ =~= t[0]);
            } else {
                assert(out@ =~= join_with(t, '.'));
            }
        }
        k += 1;
    }
    proof {
        assert(rev.take(n as int) =~= rev);
    }
    out
}

fn language_in_name_exec(lower: &[char]) -> (r: &'static str)
    ensures
        r@ == language_in_name(lower@),
{
    if contains_exec(lower, chars_of("english").as_slice()) {
        "en"
    } else if contains_exec(lower, chars_of("spanish").as_slice()) {
        "es"
    } else if contains_exec(lower, chars_of("french").as_slice()) {
        "fr"
    } else {
        "und"
    }
}

/// Guesses a subtitle's language from its file name and the stem of the
/// video it belongs to (`movie.en.srt`, `movie.english.srt`, `English.srt`).
pub fn guess_language(filename: &str, video_stem: &str) -> (code: String)
    ensures
        code@ == guessed_language(filename@, video_stem@),
{
    let name = chars_of(filename);
    let lower_s = lowercase(filename);
    let lower = chars_of(lower_s.as_str());
    let stem_s = lowercase(video_stem);
    let stem = chars_of(stem_s.as_str());
    let rest = if starts_with_exec(lower.as_slice(), stem.as_slice()) {
        copy_range(lower.as_slice(), stem.len(), lower.len())
    } else {
        copy_range(lower.as_slice(), 0, lower.len())
    };
    proof {
        assert(lower@.subrange(0, lower@.len() as int) =~= lower@);
        assert(lower@.subrange(stem@.len() as int, lower@.len() as int) =~= lower@.skip(stem@.len() as int));
    }
    let suffix = trim_start_chars(rest.as_slice(), '.');
    let end = find_char(suffix.as_slice(), 0, '.');
    proof {
        assert(suffix@.skip(0) =~= suffix@);
    }
    let part = copy_range(suffix.as_slice(), 0, end);
    proof {
        assert(part@ =~= language_part(filename@, video_stem@));
    }
    match code_for_part_exec(part.as_slice()) {
        Some(c) => string_of(chars_of(c).as_slice()),
        None => {
            let w = utf8_len_capped(part.as_slice(), 4);
            if w == 2 || w == 3 {
                string_of(part.as_slice())
            } else {
                let bare = components_before_extension_exec(name.as_slice());
                let low = lowercase_chars(bare.as_slice());
                string_of(chars_of(language_in_name_exec(low.as_slice())).as_slice())
            }
        },
    }
}

proof fn lemma_codes_short()
    ensures
        "en"@.len() <= 3,
        "eng"@.len() <= 3,
        "es"@.len() <= 3,
        "spa"@.len() <= 3,
        "fr"@.len() <= 3,
        "fre"@.len() <= 3,
        "de"@.len() <= 3,
        "ger"@.len() <= 3,
        "it"@.len() <= 3,
        "ita"@.len() <= 3,
        "pt"@.len() <= 3,
        "por"@.len() <= 3,
        "nl"@.len() <= 3,
        "dut"@.len() <= 3,
        "ru"@.len() <= 3,
        "rus"@.len() <= 3,
        "ja"@.len() <= 3,
        "jpn"@.len() <= 3,
        "ko"@.len() <= 3,
        "kor"@.len() <= 3,
        "zh"@.len() <= 3,
        "chi"@.len() <= 3,
        "ar"@.len() <= 3,
        "ara"@.len() <= 3,
        "hi"@.len() <= 3,
        "hin"@.len() <= 3,
        "sv"@.len() <= 3,
        "swe"@.len() <= 3,
        "no"@.len() <= 3,
        "nor"@.len() <= 3,
        "da"@.len() <= 3,
        "dan"@.len() <= 3,
        "fi"@.len() <= 3,
        "fin"@.len() <= 3,
        "pl"@.len() <= 3,
        "pol"@.len() <= 3,
        "tr"@.len() <= 3,
        "tur"@.len() <= 3,
{
    reveal_strlit("en");
    reveal_strlit("eng");
    reveal_strlit("es");
    reveal_strlit("spa");
    reveal_strlit("fr");
    reveal_strlit("fre");
    reveal_strlit("de");
    reveal_strlit("ger");
    reveal_strlit("it");
    reveal_strlit("ita");
    reveal_strlit("pt");
    reveal_strlit("por");
    reveal_strlit("nl");
    reveal_strlit("dut");
    reveal_strlit("ru");
    reveal_strlit("rus");
    reveal_strlit("ja");
    reveal_strlit("jpn");
    reveal_strlit("ko");
    reveal_strlit("kor");
    reveal_strlit("zh");
    reveal_strlit("chi");
    reveal_strlit("ar");
    reveal_strlit("ara");
    reveal_strlit("hi");
    reveal_strlit("hin");
    reveal_strlit("sv");
    reveal_strlit("swe");
    reveal_strlit("no");
    reveal_strlit("nor");
    reveal_strlit("da");
    reveal_strlit("dan");
    reveal_strlit("fi");
    reveal_strlit("fin");
    reveal_strlit("pl");
    reveal_strlit("pol");
    reveal_strlit("tr");
    reveal_strlit("tur");
}

proof fn lemma_name_english_kept()
    ensures
        language_name("English"@) == "English"@,
{
    reveal_strlit("English");
    assert("English"@.len() >= 5);
    lemma_codes_short();
}

proof fn lemma_name_spanish_kept()
    ensures
        language_name("Spanish"@) == "Spanish"@,
{
    reveal_strlit("Spanish");
    assert("Spanish"@.len() >= 5);
    lemma_codes_short();
}

proof fn lemma_name_french_kept()
    ensures
        language_name("French"@) == "French"@,
{
    reveal_strlit("French");
    assert("French"@.len() >= 5);
    lemma_codes_short();
}

proof fn lemma_name_german_kept()
    ensures
        language_name("German"@) == "German"@,
{
    reveal_strlit("German");
    assert("German"@.len() >= 5);
    lemma_codes_short();
}

proof fn lemma_name_italian_kept()
    ensures
        language_name("Italian"@) == "Italian"@,
{
    reveal_strlit("Italian");
    assert("Italian"@.len() >= 5);
    lemma_codes_short();
}

proof fn lemma_name_portuguese_kept()
    ensures
        language_name("Portuguese"@) == "Portuguese"@,
{
    reveal_strlit("Portuguese");
    assert("Portuguese"@.len() >= 5);
    lemma_codes_short();
}

proof fn lemma_name_dutch_kept()
    ensures
        language_name("Dutch"@) == "Dutch"@,
{
    reveal_strlit("Dutch");
    assert("Dutch"@.len() >= 5);
    lemma_codes_short();
}

proof fn lemma_name_russian_kept()
    ensures
        language_name("Russian"@) == "Russian"@,
{
    reveal_strlit("Russian");
    assert("Russian"@.len() >= 5);
    lemma_codes_short();
}

proof fn lemma_name_japanese_kept()
    ensures
        language_name("Japanese"@) == "Japanese"@,
{
    reveal_strlit("Japanese");
    assert("Japanese"@.len() >= 5);
    lemma_codes_short();
}

proof fn lemma_name_korean_kept()
    ensures
        language_name("Korean"@) == "Korean"@,
{
    reveal_strlit("Korean");
    assert("Korean"@.len() >= 5);
    lemma_codes_short();
}

proof fn lemma_name_chinese_kept()
    ensures
        language_name("Chinese"@) == "Chinese"@,
{
    reveal_strlit("Chinese");
    assert("Chinese"@.len() >= 5);
    lemma_codes_short();
}

proof fn lemma_name_arabic_kept()
    ensures
        language_name("Arabic"@) == "Arabic"@,
{
    reveal_strlit("Arabic");
    assert("Arabic"@.len() >= 5);
    lemma_codes_short();
}

proof fn lemma_name_hindi_kept()
    ensures
        language_name("Hindi"@) == "Hindi"@,
{
    reveal_strlit("Hindi");
    assert("Hindi"@.len() >= 5);
    lemma_codes_short();
}

proof fn lemma_name_swedish_kept()
    ensures
        language_name("Swedish"@) == "Swedish"@,
{
    reveal_strlit("Swedish");
    assert("Swedish"@.len() >= 5);
    lemma_codes_short();
}

proof fn lemma_name_norwegian_kept()
    ensures
        language_name("Norwegian"@) == "Norwegian"@,
{
    reveal_strlit("Norwegian");
    assert("Norwegian"@.len() >= 5);
    lemma_codes_short();
}

proof fn lemma_name_danish_kept()
    ensures
        language_name("Danish"@) == "Danish"@,
{
    reveal_strlit("Danish");
    assert("Danish"@.len() >= 5);
    lemma_codes_short();
}

proof fn lemma_name_finnish_kept()
    ensures
        language_name("Finnish"@) == "Finnish"@,
{
    reveal_strlit("Finnish");
    assert("Finnish"@.len() >= 5);
    lemma_codes_short();
}

proof fn lemma_name_polish_kept()
    ensures
        language_name("Polish"@) == "Polish"@,
{
    reveal_strlit("Polish");
    assert("Polish"@.len() >= 5);
    lemma_codes_short();
}

proof fn lemma_name_turkish_kept()
    ensures
        language_name("Turkish"@) == "Turkish"@,
{
    reveal_strlit("Turkish");
    assert("Turkish"@.len() >= 5);
    lemma_codes_short();
}

/// Law: a language's display name is no language code, so naming a name
/// again changes nothing.
pub proof fn law_language_name_stable(code: Seq<char>)
    ensures
        language_name(language_name(code)) == language_name(code),
{
    lemma_name_english_kept();
    lemma_name_spanish_kept();
    lemma_name_french_kept();
    lemma_name_german_kept();
    lemma_name_italian_kept();
    lemma_name_portuguese_kept();
    lemma_name_dutch_kept();
    lemma_name_russian_kept();
    lemma_name_japanese_kept();
    lemma_name_korean_kept();
    lemma_name_chinese_kept();
    lemma_name_arabic_kept();
    lemma_name_hindi_kept();
    lemma_name_swedish_kept();
    lemma_name_norwegian_kept();
    lemma_name_danish_kept();
    lemma_name_finnish_kept();
    lemma_name_polish_kept();
    lemma_name_turkish_kept();
}

/// Law: the guessed language of a subtitle file is never empty.
pub proof fn law_guessed_language_nonempty(filename: Seq<char>, video_stem: Seq<char>)
    ensures
        guessed_language(filename, video_stem).len() > 0,
{
    reveal_strlit("en");
    reveal_strlit("es");
    reveal_strlit("fr");
    reveal_strlit("de");
    reveal_strlit("it");
    reveal_strlit("pt");
    reveal_strlit("nl");
    reveal_strlit("ru");
    reveal_strlit("ja");
    reveal_strlit("ko");
    reveal_strlit("zh");
    reveal_strlit("ar");
    reveal_strlit("hi");
    reveal_strlit("sv");
    reveal_strlit("no");
    reveal_strlit("da");
    reveal_strlit("fi");
    reveal_strlit("pl");
    reveal_strlit("tr");
    reveal_strlit("und");
    let part = language_part(filename, video_stem);
    if part.len() == 0 {
        assert(utf8_len(part) == 0);
    }
}

/// A lowercase ASCII letter as its uppercase letter; any other character
/// as it is.
pub open spec fn ascii_upper(c: char) -> char {
    if 'a' <= c && c <= 'z' {
        ((c as u32) - 32) as char
    } else {
        c
    }
}

/// A text with its ASCII lowercase letters made uppercase
/// (`str::to_ascii_uppercase`).
pub open spec fn ascii_uppercase(s: Seq<char>) -> Seq<char> {
    s.map_values(|c: char| ascii_upper(c))
}

/// A text of ASCII characters none of which is an uppercase letter.
pub open spec fn lower_ascii_text(s: Seq<char>) -> bool {
    forall|i: int| 0 <= i < s.len() ==> (#[trigger] s[i] as u32) < 128 && !('A' <= s[i] && s[i] <= 'Z')
}

/// A character map that sends exactly `c` to `c`.
pub open spec fn keeps_only(m: spec_fn(char) -> char, c: char) -> bool {
    forall|x: char| #[trigger] m(x) == c <==> x == c
}

proof fn lemma_first_pos_map(s: Seq<char>, c: char, m: spec_fn(char) -> char)
    requires
        keeps_only(m, c),
    ensures
        first_pos(s.map_values(m), c) == first_pos(s, c),
    decreases s.len(),
{
    if s.len() > 0 {
        assert(s.map_values(m)[0] == m(s[0]));
        assert(s.map_values(m).drop_first() =~= s.drop_first().map_values(m));
        lemma_first_pos_map(s.drop_first(), c, m);
    }
}

proof fn lemma_split_map(s: Seq<char>, c: char, m: spec_fn(char) -> char)
    requires
        keeps_only(m, c),
    ensures
        split_char(s.map_values(m), c) == split_char(s, c).map_values(|p: Seq<char>| p.map_values(m)),
    decreases s.len(),
{
    lemma_first_pos_map(s, c, m);
    crate::text::lemma_first_pos(s, c);
    let p = first_pos(s, c) as int;
    let t = s.map_values(m);
    if p >= s.len() {
        assert(split_char(s, c).map_values(|q: Seq<char>| q.map_values(m)) =~= seq![t]);
    } else {
        assert(t.take(p) =~= s.take(p).map_values(m));
        assert(t.skip(p + 1) =~= s.skip(p + 1).map_values(m));
        lemma_split_map(s.skip(p + 1), c, m);
        assert(split_char(s, c) == seq![s.take(p)] + split_char(s.skip(p + 1), c));
        assert(split_char(t, c) == seq![t.take(p)] + split_char(t.skip(p + 1), c));
        assert(split_char(t, c) =~= split_char(s, c).map_values(|q: Seq<char>| q.map_values(m)));
    }
}

proof fn lemma_join_map(ps: Seq<Seq<char>>, c: char, m: spec_fn(char) -> char)
    requires
        m(c) == c,
    ensures
        join_with(ps.map_values(|p: Seq<char>| p.map_values(m)), c) == join_with(ps, c).map_values(m),
    decreases ps.len(),
{
    let qs = ps.map_values(|p: Seq<char>| p.map_values(m));
    if ps.len() == 1 {
        assert(qs[0] == ps[0].map_values(m));
    } else if ps.len() > 1 {
        assert(qs.drop_last() =~= ps.drop_last().map_values(|p: Seq<char>| p.map_values(m)));
        lemma_join_map(ps.drop_last(), c, m);
        assert(qs.last() == ps.last().map_values(m));
        assert(join_with(qs, c) =~= join_with(ps, c).map_values(m));
    } else {
        assert(join_with(ps, c).map_values(m) =~= Seq::<char>::empty());
    }
}

proof fn lemma_components_map(s: Seq<char>, m: spec_fn(char) -> char)
    requires
        keeps_only(m, '.'),
    ensures
        components_before_extension(s.map_values(m)) == components_before_extension(s).map_values(m),
{
    lemma_split_map(s, '.', m);
    let ps = split_char(s, '.').drop_last().reverse();
    assert(split_char(s.map_values(m), '.').drop_last().reverse() =~= ps.map_values(
        |p: Seq<char>| p.map_values(m),
    ));
    lemma_join_map(ps, '.', m);
}

/// An ASCII character as it is; any other as `?`.
spec fn ascii_only(c: char) -> char {
    if (c as u32) < 128 {
        c
    } else {
        '?'
    }
}

proof fn lemma_components_ascii(s: Seq<char>)
    requires
        is_ascii_text(s),
    ensures
        is_ascii_text(components_before_extension(s)),
{
    let m = |c: char| ascii_only(c);
    assert(s.map_values(m) =~= s);
    lemma_components_map(s, m);
    let x = components_before_extension(s);
    assert forall|i: int| 0 <= i < x.len() implies (#[trigger] x[i] as u32) < 128 by {
        assert(x.map_values(m)[i] == ascii_only(x[i]));
    }
}

proof fn lemma_lower_of_upper(s: Seq<char>)
    requires
        is_ascii_text(s),
    ensures
        is_ascii_text(ascii_uppercase(s)),
        lowercase_of(ascii_uppercase(s)) == lowercase_of(s),
{
    let u = ascii_uppercase(s);
    assert forall|i: int| 0 <= i < u.len() implies (#[trigger] u[i] as u32) < 128 by {
        assert(u[i] == ascii_upper(s[i]));
        assert((s[i] as u32) < 128);
    }
    assert forall|i: int| 0 <= i < s.len() implies ascii_lower(#[trigger] u[i]) == ascii_lower(s[i]) by {
        assert(u[i] == ascii_upper(s[i]));
    }
    assert(lowercase_of(u) =~= lowercase_of(s));
}

proof fn lemma_lower_fixed(s: Seq<char>)
    requires
        lower_ascii_text(s),
    ensures
        lowercase_of(s) == s,
{
    assert(is_ascii_text(s));
    assert(lowercase_of(s) =~= s);
}

proof fn lemma_lowercase_is_lower(s: Seq<char>)
    requires
        is_ascii_text(s),
    ensures
        lower_ascii_text(lowercase_of(s)),
{
    let l = lowercase_of(s);
    assert forall|i: int| 0 <= i < l.len() implies (#[trigger] l[i] as u32) < 128 && !('A' <= l[i]
        && l[i] <= 'Z') by {
        assert(l[i] == ascii_lower(s[i]));
        assert((s[i] as u32) < 128);
    }
}

proof fn lemma_trim_keeps_lower(s: Seq<char>, c: char)
    requires
        lower_ascii_text(s),
    ensures
        lower_ascii_text(trim_start_char(s, c)),
    decreases s.len(),
{
    if s.len() > 0 && s[0] == c {
        assert forall|i: int| 0 <= i < s.drop_first().len() implies (#[trigger] s.drop_first()[i] as u32)
            < 128 && !('A' <= s.drop_first()[i] && s.drop_first()[i] <= 'Z') by {
            assert(s.drop_first()[i] == s[i + 1]);
        }
        lemma_trim_keeps_lower(s.drop_first(), c);
    }
}

proof fn lemma_codes_lower()
    ensures
        lowercase_of("en"@) == "en"@,
        lowercase_of("es"@) == "es"@,
        lowercase_of("fr"@) == "fr"@,
        lowercase_of("de"@) == "de"@,
        lowercase_of("it"@) == "it"@,
        lowercase_of("pt"@) == "pt"@,
        lowercase_of("nl"@) == "nl"@,
        lowercase_of("ru"@) == "ru"@,
        lowercase_of("ja"@) == "ja"@,
        lowercase_of("ko"@) == "ko"@,
        lowercase_of("zh"@) == "zh"@,
        lowercase_of("ar"@) == "ar"@,
        lowercase_of("hi"@) == "hi"@,
        lowercase_of("sv"@) == "sv"@,
        lowercase_of("no"@) == "no"@,
        lowercase_of("da"@) == "da"@,
        lowercase_of("fi"@) == "fi"@,
        lowercase_of("pl"@) == "pl"@,
        lowercase_of("tr"@) == "tr"@,
        lowercase_of("und"@) == "und"@,
{
    reveal_strlit("en");
    reveal_strlit("es");
    reveal_strlit("fr");
    reveal_strlit("de");
    reveal_strlit("it");
    reveal_strlit("pt");
    reveal_strlit("nl");
    reveal_strlit("ru");
    reveal_strlit("ja");
    reveal_strlit("ko");
    reveal_strlit("zh");
    reveal_strlit("ar");
    reveal_strlit("hi");
    reveal_strlit("sv");
    reveal_strlit("no");
    reveal_strlit("da");
    reveal_strlit("fi");
    reveal_strlit("pl");
    reveal_strlit("tr");
    reveal_strlit("und");
    lemma_lower_fixed("en"@);
    lemma_lower_fixed("es"@);
    lemma_lower_fixed("fr"@);
    lemma_lower_fixed("de"@);
    lemma_lower_fixed("it"@);
    lemma_lower_fixed("pt"@);
    lemma_lower_fixed("nl"@);
    lemma_lower_fixed("ru"@);
    lemma_lower_fixed("ja"@);
    lemma_lower_fixed("ko"@);
    lemma_lower_fixed("zh"@);
    lemma_lower_fixed("ar"@);
    lemma_lower_fixed("hi"@);
    lemma_lower_fixed("sv"@);
    lemma_lower_fixed("no"@);
    lemma_lower_fixed("da"@);
    lemma_lower_fixed("fi"@);
    lemma_lower_fixed("pl"@);
    lemma_lower_fixed("tr"@);
    lemma_lower_fixed("und"@);
}

/// Law: for ASCII file names and stems, the guess ignores letter case, and
/// the guessed code is lowercase.
pub proof fn law_guess_ignores_ascii_case(filename: Seq<char>, video_stem: Seq<char>)
    requires
        is_ascii_text(filename),
        is_ascii_text(video_stem),
    ensures
        guessed_language(ascii_uppercase(filename), ascii_uppercase(video_stem)) == guessed_language(
            filename,
            video_stem,
        ),
        lowercase_of(guessed_language(filename, video_stem)) == guessed_language(filename, video_stem),
{
    lemma_lower_of_upper(filename);
    lemma_lower_of_upper(video_stem);
    let m = |c: char| ascii_upper(c);
    assert(keeps_only(m, '.'));
    lemma_components_map(filename, m);
    lemma_components_ascii(filename);
    let comps = components_before_extension(filename);
    assert(components_before_extension(ascii_uppercase(filename)) == ascii_uppercase(comps));
    lemma_lower_of_upper(comps);
    lemma_codes_lower();
    // The component itself, when it is the guess, is lowercase.
    let lower = lowercase_of(filename);
    let stem = lowercase_of(video_stem);
    lemma_lowercase_is_lower(filename);
    let rest = if starts_with(lower, stem) {
        lower.skip(stem.len() as int)
    } else {
        lower
    };
    assert(lower_ascii_text(rest)) by {
        if starts_with(lower, stem) {
            assert forall|i: int| 0 <= i < rest.len() implies (#[trigger] rest[i] as u32) < 128 && !('A'
                <= rest[i] && rest[i] <= 'Z') by {
                assert(rest[i] == lower[i + stem.len()]);
            }
        }
    }
    lemma_trim_keeps_lower(rest, '.');
    let suffix = trim_start_char(rest, '.');
    let part = language_part(filename, video_stem);
    crate::text::lemma_first_pos(suffix, '.');
    assert(part == suffix.take(first_pos(suffix, '.') as int));
    assert(lower_ascii_text(part)) by {
        assert forall|i: int| 0 <= i < part.len() implies (#[trigger] part[i] as u32) < 128 && !('A'
            <= part[i] && part[i] <= 'Z') by {
            assert(part[i] == suffix[i]);
        }
    }
    lemma_lower_fixed(part);
}

/// The characters of the language codes, names and display names.
proof fn lemma_language_literals()
    ensures
        "en"@.len() == 2,
        "en"@[0] == 'e',
        "en"@[1] == 'n',
        "eng"@.len() == 3,
        "eng"@[0] == 'e',
        "eng"@[1] == 'n',
        "eng"@[2] == 'g',
        "english"@.len() == 7,
        "english"@[0] == 'e',
        "english"@[1] == 'n',
        "english"@[2] == 'g',
        "english"@[3] == 'l',
        "english"@[4] == 'i',
        "english"@[5] == 's',
        "english"@[6] == 'h',
        "English"@.len() == 7,
        "English"@[0] == 'E',
        "English"@[1] == 'n',
        "English"@[2] == 'g',
        "English"@[3] == 'l',
        "English"@[4] == 'i',
        "English"@[5] == 's',
        "English"@[6] == 'h',
        "es"@.len() == 2,
        "es"@[0] == 'e',
        "es"@[1] == 's',
        "spa"@.len() == 3,
        "spa"@[0] == 's',
        "spa"@[1] == 'p',
        "spa"@[2] == 'a',
        "spanish"@.len() == 7,
        "spanish"@[0] == 's',
        "spanish"@[1] == 'p',
        "spanish"@[2] == 'a',
        "spanish"@[3] == 'n',
        "spanish"@[4] == 'i',
        "spanish"@[5] == 's',
        "spanish"@[6] == 'h',
        "Spanish"@.len() == 7,
        "Spanish"@[0] == 'S',
        "Spanish"@[1] == 'p',
        "Spanish"@[2] == 'a',
        "Spanish"@[3] == 'n',
        "Spanish"@[4] == 'i',
        "Spanish"@[5] == 's',
        "Spanish"@[6] == 'h',
        "fr"@.len() == 2,
        "fr"@[0] == 'f',
        "fr"@[1] == 'r',
        "fre"@.len() == 3,
        "fre"@[0] == 'f',
        "fre"@[1] == 'r',
        "fre"@[2] == 'e',
        "french"@.len() == 6,
        "french"@[0] == 'f',
        "french"@[1] == 'r',
        "french"@[2] == 'e',
        "french"@[3] == 'n',
        "french"@[4] == 'c',
        "french"@[5] == 'h',
        "French"@.len() == 6,
        "French"@[0] == 'F',
        "French"@[1] == 'r',
        "French"@[2] == 'e',
        "French"@[3] == 'n',
        "French"@[4] == 'c',
        "French"@[5] == 'h',
        "de"@.len() == 2,
        "de"@[0] == 'd',
        "de"@[1] == 'e',
        "ger"@.len() == 3,
        "ger"@[0] == 'g',
        "ger"@[1] == 'e',
        "ger"@[2] == 'r',
        "german"@.len() == 6,
        "german"@[0] == 'g',
        "german"@[1] == 'e',
        "german"@[2] == 'r',
        "german"@[3] == 'm',
        "german"@[4] == 'a',
        "german"@[5] == 'n',
        "German"@.len() == 6,
        "German"@[0] == 'G',
        "German"@[1] == 'e',
        "German"@[2] == 'r',
        "German"@[3] == 'm',
        "German"@[4] == 'a',
        "German"@[5] == 'n',
        "it"@.len() == 2,
        "it"@[0] == 'i',
        "it"@[1] == 't',
        "ita"@.len() == 3,
        "ita"@[0] == 'i',
        "ita"@[1] == 't',
        "ita"@[2] == 'a',
        "italian"@.len() == 7,
        "italian"@[0] == 'i',
        "italian"@[1] == 't',
        "italian"@[2] == 'a',
        "italian"@[3] == 'l',
        "italian"@[4] == 'i',
        "italian"@[5] == 'a',
        "italian"@[6] == 'n',
        "Italian"@.len() == 7,
        "Italian"@[0] == 'I',
        "Italian"@[1] == 't',
        "Italian"@[2] == 'a',
        "Italian"@[3] == 'l',
        "Italian"@[4] == 'i',
        "Italian"@[5] == 'a',
        "Italian"@[6] == 'n',
        "pt"@.len() == 2,
        "pt"@[0] == 'p',
        "pt"@[1] == 't',
        "por"@.len() == 3,
        "por"@[0] == 'p',
        "por"@[1] == 'o',
        "por"@[2] == 'r',
        "portuguese"@.len() == 10,
        "portuguese"@[0] == 'p',
        "portuguese"@[1] == 'o',
        "portuguese"@[2] == 'r',
        "portuguese"@[3] == 't',
        "portuguese"@[4] == 'u',
        "portuguese"@[5] == 'g',
        "portuguese"@[6] == 'u',
        "portuguese"@[7] == 'e',
        "portuguese"@[8] == 's',
        "portuguese"@[9] == 'e',
        "Portuguese"@.len() == 10,
        "Portuguese"@[0] == 'P',
        "Portuguese"@[1] == 'o',
        "Portuguese"@[2] == 'r',
        "Portuguese"@[3] == 't',
        "Portuguese"@[4] == 'u',
        "Portuguese"@[5] == 'g',
        "Portuguese"@[6] == 'u',
        "Portuguese"@[7] == 'e',
        "Portuguese"@[8] == 's',
        "Portuguese"@[9] == 'e',
        "nl"@.len() == 2,
        "nl"@[0] == 'n',
        "nl"@[1] == 'l',
        "dut"@.len() == 3,
        "dut"@[0] == 'd',
        "dut"@[1] == 'u',
        "dut"@[2] == 't',
        "dutch"@.len() == 5,
        "dutch"@[0] == 'd',
        "dutch"@[1] == 'u',
        "dutch"@[2] == 't',
        "dutch"@[3] == 'c',
        "dutch"@[4] == 'h',
        "Dutch"@.len() == 5,
        "Dutch"@[0] == 'D',
        "Dutch"@[1] == 'u',
        "Dutch"@[2] == 't',
        "Dutch"@[3] == 'c',
        "Dutch"@[4] == 'h',
        "ru"@.len() == 2,
        "ru"@[0] == 'r',
        "ru"@[1] == 'u',
        "rus"@.len() == 3,
        "rus"@[0] == 'r',
        "rus"@[1] == 'u',
        "rus"@[2] == 's',
        "russian"@.len() == 7,
        "russian"@[0] == 'r',
        "russian"@[1] == 'u',
        "russian"@[2] == 's',
        "russian"@[3] == 's',
        "russian"@[4] == 'i',
        "russian"@[5] == 'a',
        "russian"@[6] == 'n',
        "Russian"@.len() == 7,
        "Russian"@[0] == 'R',
        "Russian"@[1] == 'u',
        "Russian"@[2] == 's',
        "Russian"@[3] == 's',
        "Russian"@[4] == 'i',
        "Russian"@[5] == 'a',
        "Russian"@[6] == 'n',
        "ja"@.len() == 2,
        "ja"@[0] == 'j',
        "ja"@[1] == 'a',
        "jpn"@.len() == 3,
        "jpn"@[0] == 'j',
        "jpn"@[1] == 'p',
        "jpn"@[2] == 'n',
        "japanese"@.len() == 8,
        "japanese"@[0] == 'j',
        "japanese"@[1] == 'a',
        "japanese"@[2] == 'p',
        "japanese"@[3] == 'a',
        "japanese"@[4] == 'n',
        "japanese"@[5] == 'e',
        "japanese"@[6] == 's',
        "japanese"@[7] == 'e',
        "Japanese"@.len() == 8,
        "Japanese"@[0] == 'J',
        "Japanese"@[1] == 'a',
        "Japanese"@[2] == 'p',
        "Japanese"@[3] == 'a',
        "Japanese"@[4] == 'n',
        "Japanese"@[5] == 'e',
        "Japanese"@[6] == 's',
        "Japanese"@[7] == 'e',
        "ko"@.len() == 2,
        "ko"@[0] == 'k',
        "ko"@[1] == 'o',
        "kor"@.len() == 3,
        "kor"@[0] == 'k',
        "kor"@[1] == 'o',
        "kor"@[2] == 'r',
        "korean"@.len() == 6,
        "korean"@[0] == 'k',
        "korean"@[1] == 'o',
        "korean"@[2] == 'r',
        "korean"@[3] == 'e',
        "korean"@[4] == 'a',
        "korean"@[5] == 'n',
        "Korean"@.len() == 6,
        "Korean"@[0] == 'K',
        "Korean"@[1] == 'o',
        "Korean"@[2] == 'r',
        "Korean"@[3] == 'e',
        "Korean"@[4] == 'a',
        "Korean"@[5] == 'n',
        "zh"@.len() == 2,
        "zh"@[0] == 'z',
        "zh"@[1] == 'h',
        "chi"@.len() == 3,
        "chi"@[0] == 'c',
        "chi"@[1] == 'h',
        "chi"@[2] == 'i',
        "chinese"@.len() == 7,
        "chinese"@[0] == 'c',
        "chinese"@[1] == 'h',
        "chinese"@[2] == 'i',
        "chinese"@[3] == 'n',
        "chinese"@[4] == 'e',
        "chinese"@[5] == 's',
        "chinese"@[6] == 'e',
        "Chinese"@.len() == 7,
        "Chinese"@[0] == 'C',
        "Chinese"@[1] == 'h',
        "Chinese"@[2] == 'i',
        "Chinese"@[3] == 'n',
        "Chinese"@[4] == 'e',
        "Chinese"@[5] == 's',
        "Chinese"@[6] == 'e',
        "ar"@.len() == 2,
        "ar"@[0] == 'a',
        "ar"@[1] == 'r',
        "ara"@.len() == 3,
        "ara"@[0] == 'a',
        "ara"@[1] == 'r',
        "ara"@[2] == 'a',
        "arabic"@.len() == 6,
        "arabic"@[0] == 'a',
        "arabic"@[1] == 'r',
        "arabic"@[2] == 'a',
        "arabic"@[3] == 'b',
        "arabic"@[4] == 'i',
        "arabic"@[5] == 'c',
        "Arabic"@.len() == 6,
        "Arabic"@[0] == 'A',
        "Arabic"@[1] == 'r',
        "Arabic"@[2] == 'a',
        "Arabic"@[3] == 'b',
        "Arabic"@[4] == 'i',
        "Arabic"@[5] == 'c',
        "hi"@.len() == 2,
        "hi"@[0] == 'h',
        "hi"@[1] == 'i',
        "hin"@.len() == 3,
        "hin"@[0] == 'h',
        "hin"@[1] == 'i',
        "hin"@[2] == 'n',
        "hindi"@.len() == 5,
        "hindi"@[0] == 'h',
        "hindi"@[1] == 'i',
        "hindi"@[2] == 'n',
        "hindi"@[3] == 'd',
        "hindi"@[4] == 'i',
        "Hindi"@.len() == 5,
        "Hindi"@[0] == 'H',
        "Hindi"@[1] == 'i',
        "Hindi"@[2] == 'n',
        "Hindi"@[3] == 'd',
        "Hindi"@[4] == 'i',
        "sv"@.len() == 2,
        "sv"@[0] == 's',
        "sv"@[1] == 'v',
        "swe"@.len() == 3,
        "swe"@[0] == 's',
        "swe"@[1] == 'w',
        "swe"@[2] == 'e',
        "swedish"@.len() == 7,
        "swedish"@[0] == 's',
        "swedish"@[1] == 'w',
        "swedish"@[2] == 'e',
        "swedish"@[3] == 'd',
        "swedish"@[4] == 'i',
        "swedish"@[5] == 's',
        "swedish"@[6] == 'h',
        "Swedish"@.len() == 7,
        "Swedish"@[0] == 'S',
        "Swedish"@[1] == 'w',
        "Swedish"@[2] == 'e',
        "Swedish"@[3] == 'd',
        "Swedish"@[4] == 'i',
        "Swedish"@[5] == 's',
        "Swedish"@[6] == 'h',
        "no"@.len() == 2,
        "no"@[0] == 'n',
        "no"@[1] == 'o',
        "nor"@.len() == 3,
        "nor"@[0] == 'n',
        "nor"@[1] == 'o',
        "nor"@[2] == 'r',
        "norwegian"@.len() == 9,
        "norwegian"@[0] == 'n',
        "norwegian"@[1] == 'o',
        "norwegian"@[2] == 'r',
        "norwegian"@[3] == 'w',
        "norwegian"@[4] == 'e',
        "norwegian"@[5] == 'g',
        "norwegian"@[6] == 'i',
        "norwegian"@[7] == 'a',
        "norwegian"@[8] == 'n',
        "Norwegian"@.len() == 9,
        "Norwegian"@[0] == 'N',
        "Norwegian"@[1] == 'o',
        "Norwegian"@[2] == 'r',
        "Norwegian"@[3] == 'w',
        "Norwegian"@[4] == 'e',
        "Norwegian"@[5] == 'g',
        "Norwegian"@[6] == 'i',
        "Norwegian"@[7] == 'a',
        "Norwegian"@[8] == 'n',
        "da"@.len() == 2,
        "da"@[0] == 'd',
        "da"@[1] == 'a',
        "dan"@.len() == 3,
        "dan"@[0] == 'd',
        "dan"@[1] == 'a',
        "dan"@[2] == 'n',
        "danish"@.len() == 6,
        "danish"@[0] == 'd',
        "danish"@[1] == 'a',
        "danish"@[2] == 'n',
        "danish"@[3] == 'i',
        "danish"@[4] == 's',
        "danish"@[5] == 'h',
        "Danish"@.len() == 6,
        "Danish"@[0] == 'D',
        "Danish"@[1] == 'a',
        "Danish"@[2] == 'n',
        "Danish"@[3] == 'i',
        "Danish"@[4] == 's',
        "Danish"@[5] == 'h',
        "fi"@.len() == 2,
        "fi"@[0] == 'f',
        "fi"@[1] == 'i',
        "fin"@.len() == 3,
        "fin"@[0] == 'f',
        "fin"@[1] == 'i',
        "fin"@[2] == 'n',
        "finnish"@.len() == 7,
        "finnish"@[0] == 'f',
        "finnish"@[1] == 'i',
        "finnish"@[2] == 'n',
        "finnish"@[3] == 'n',
        "finnish"@[4] == 'i',
        "finnish"@[5] == 's',
        "finnish"@[6] == 'h',
        "Finnish"@.len() == 7,
        "Finnish"@[0] == 'F',
        "Finnish"@[1] == 'i',
        "Finnish"@[2] == 'n',
        "Finnish"@[3] == 'n',
        "Finnish"@[4] == 'i',
        "Finnish"@[5] == 's',
        "Finnish"@[6] == 'h',
        "pl"@.len() == 2,
        "pl"@[0] == 'p',
        "pl"@[1] == 'l',
        "pol"@.len() == 3,
        "pol"@[0] == 'p',
        "pol"@[1] == 'o',
        "pol"@[2] == 'l',
        "polish"@.len() == 6,
        "polish"@[0] == 'p',
        "polish"@[1] == 'o',
        "polish"@[2] == 'l',
        "polish"@[3] == 'i',
        "polish"@[4] == 's',
        "polish"@[5] == 'h',
        "Polish"@.len() == 6,
        "Polish"@[0] == 'P',
        "Polish"@[1] == 'o',
        "Polish"@[2] == 'l',
        "Polish"@[3] == 'i',
        "Polish"@[4] == 's',
        "Polish"@[5] == 'h',
        "tr"@.len() == 2,
        "tr"@[0] == 't',
        "tr"@[1] == 'r',
        "tur"@.len() == 3,
        "tur"@[0] == 't',
        "tur"@[1] == 'u',
        "tur"@[2] == 'r',
        "turkish"@.len() == 7,
        "turkish"@[0] == 't',
        "turkish"@[1] == 'u',
        "turkish"@[2] == 'r',
        "turkish"@[3] == 'k',
        "turkish"@[4] == 'i',
        "turkish"@[5] == 's',
        "turkish"@[6] == 'h',
        "Turkish"@.len() == 7,
        "Turkish"@[0] == 'T',
        "Turkish"@[1] == 'u',
        "Turkish"@[2] == 'r',
        "Turkish"@[3] == 'k',
        "Turkish"@[4] == 'i',
        "Turkish"@[5] == 's',
        "Turkish"@[6] == 'h',
        "sdh"@.len() == 3,
        "sdh"@[0] == 's',
        "sdh"@[1] == 'd',
        "sdh"@[2] == 'h',
{
    reveal_strlit("en");
    reveal_strlit("eng");
    reveal_strlit("english");
    reveal_strlit("English");
    reveal_strlit("es");
    reveal_strlit("spa");
    reveal_strlit("spanish");
    reveal_strlit("Spanish");
    reveal_strlit("fr");
    reveal_strlit("fre");
    reveal_strlit("french");
    reveal_strlit("French");
    reveal_strlit("de");
    reveal_strlit("ger");
    reveal_strlit("german");
    reveal_strlit("German");
    reveal_strlit("it");
    reveal_strlit("ita");
    reveal_strlit("italian");
    reveal_strlit("Italian");
    reveal_strlit("pt");
    reveal_strlit("por");
    reveal_strlit("portuguese");
    reveal_strlit("Portuguese");
    reveal_strlit("nl");
    reveal_strlit("dut");
    reveal_strlit("dutch");
    reveal_strlit("Dutch");
    reveal_strlit("ru");
    reveal_strlit("rus");
    reveal_strlit("russian");
    reveal_strlit("Russian");
    reveal_strlit("ja");
    reveal_strlit("jpn");
    reveal_strlit("japanese");
    reveal_strlit("Japanese");
    reveal_strlit("ko");
    reveal_strlit("kor");
    reveal_strlit("korean");
    reveal_strlit("Korean");
    reveal_strlit("zh");
    reveal_strlit("chi");
    reveal_strlit("chinese");
    reveal_strlit("Chinese");
    reveal_strlit("ar");
    reveal_strlit("ara");
    reveal_strlit("arabic");
    reveal_strlit("Arabic");
    reveal_strlit("hi");
    reveal_strlit("hin");
    reveal_strlit("hindi");
    reveal_strlit("Hindi");
    reveal_strlit("sv");
    reveal_strlit("swe");
    reveal_strlit("swedish");
    reveal_strlit("Swedish");
    reveal_strlit("no");
    reveal_strlit("nor");
    reveal_strlit("norwegian");
    reveal_strlit("Norwegian");
    reveal_strlit("da");
    reveal_strlit("dan");
    reveal_strlit("danish");
    reveal_strlit("Danish");
    reveal_strlit("fi");
    reveal_strlit("fin");
    reveal_strlit("finnish");
    reveal_strlit("Finnish");
    reveal_strlit("pl");
    reveal_strlit("pol");
    reveal_strlit("polish");
    reveal_strlit("Polish");
    reveal_strlit("tr");
    reveal_strlit("tur");
    reveal_strlit("turkish");
    reveal_strlit("Turkish");
    reveal_strlit("sdh");
}

proof fn lemma_row_english()
    ensures
        code_for_part("en"@) == Some("en"@),
        code_for_part("eng"@) == Some("en"@),
        code_for_part("english"@) == Some("en"@),
        language_name("en"@) == "English"@,
        language_name("eng"@) == "English"@,
        "English"@ != "en"@,
        lowercase_of("English"@) == "english"@,
{
    lemma_language_literals();
    assert(lowercase_of("English"@) =~= "english"@);
}

proof fn lemma_row_spanish()
    ensures
        code_for_part("es"@) == Some("es"@),
        code_for_part("spa"@) == Some("es"@),
        code_for_part("spanish"@) == Some("es"@),
        language_name("es"@) == "Spanish"@,
        language_name("spa"@) == "Spanish"@,
        "Spanish"@ != "es"@,
        lowercase_of("Spanish"@) == "spanish"@,
{
    lemma_language_literals();
    assert(lowercase_of("Spanish"@) =~= "spanish"@);
}

proof fn lemma_row_french()
    ensures
        code_for_part("fr"@) == Some("fr"@),
        code_for_part("fre"@) == Some("fr"@),
        code_for_part("french"@) == Some("fr"@),
        language_name("fr"@) == "French"@,
        language_name("fre"@) == "French"@,
        "French"@ != "fr"@,
        lowercase_of("French"@) == "french"@,
{
    lemma_language_literals();
    assert(lowercase_of("French"@) =~= "french"@);
}

proof fn lemma_row_german()
    ensures
        code_for_part("de"@) == Some("de"@),
        code_for_part("ger"@) == Some("de"@),
        code_for_part("german"@) == Some("de"@),
        language_name("de"@) == "German"@,
        language_name("ger"@) == "German"@,
        "German"@ != "de"@,
        lowercase_of("German"@) == "german"@,
{
    lemma_language_literals();
    assert(lowercase_of("German"@) =~= "german"@);
}

proof fn lemma_row_italian()
    ensures
        code_for_part("it"@) == Some("it"@),
        code_for_part("ita"@) == Some("it"@),
        code_for_part("italian"@) == Some("it"@),
        language_name("it"@) == "Italian"@,
        language_name("ita"@) == "Italian"@,
        "Italian"@ != "it"@,
        lowercase_of("Italian"@) == "italian"@,
{
    lemma_language_literals();
    assert(lowercase_of("Italian"@) =~= "italian"@);
}

proof fn lemma_row_portuguese()
    ensures
        code_for_part("pt"@) == Some("pt"@),
        code_for_part("por"@) == Some("pt"@),
        code_for_part("portuguese"@) == Some("pt"@),
        language_name("pt"@) == "Portuguese"@,
        language_name("por"@) == "Portuguese"@,
        "Portuguese"@ != "pt"@,
        lowercase_of("Portuguese"@) == "portuguese"@,
{
    lemma_language_literals();
    assert(lowercase_of("Portuguese"@) =~= "portuguese"@);
}

proof fn lemma_row_dutch()
    ensures
        code_for_part("nl"@) == Some("nl"@),
        code_for_part("dut"@) == Some("nl"@),
        code_for_part("dutch"@) == Some("nl"@),
        language_name("nl"@) == "Dutch"@,
        language_name("dut"@) == "Dutch"@,
        "Dutch"@ != "nl"@,
        lowercase_of("Dutch"@) == "dutch"@,
{
    lemma_language_literals();
    assert(lowercase_of("Dutch"@) =~= "dutch"@);
}

proof fn lemma_row_russian()
    ensures
        code_for_part("ru"@) == Some("ru"@),
        code_for_part("rus"@) == Some("ru"@),
        code_for_part("russian"@) == Some("ru"@),
        language_name("ru"@) == "Russian"@,
        language_name("rus"@) == "Russian"@,
        "Russian"@ != "ru"@,
        lowercase_of("Russian"@) == "russian"@,
{
    lemma_language_literals();
    assert(lowercase_of("Russian"@) =~= "russian"@);
}

proof fn lemma_row_japanese()
    ensures
        code_for_part("ja"@) == Some("ja"@),
        code_for_part("jpn"@) == Some("ja"@),
        code_for_part("japanese"@) == Some("ja"@),
        language_name("ja"@) == "Japanese"@,
        language_name("jpn"@) == "Japanese"@,
        "Japanese"@ != "ja"@,
        lowercase_of("Japanese"@) == "japanese"@,
{
    lemma_language_literals();
    assert(lowercase_of("Japanese"@) =~= "japanese"@);
}

proof fn lemma_row_korean()
    ensures
        code_for_part("ko"@) == Some("ko"@),
        code_for_part("kor"@) == Some("ko"@),
        code_for_part("korean"@) == Some("ko"@),
        language_name("ko"@) == "Korean"@,
        language_name("kor"@) == "Korean"@,
        "Korean"@ != "ko"@,
        lowercase_of("Korean"@) == "korean"@,
{
    lemma_language_literals();
    assert(lowercase_of("Korean"@) =~= "korean"@);
}

proof fn lemma_row_chinese()
    ensures
        code_for_part("zh"@) == Some("zh"@),
        code_for_part("chi"@) == Some("zh"@),
        code_for_part("chinese"@) == Some("zh"@),
        language_name("zh"@) == "Chinese"@,
        language_name("chi"@) == "Chinese"@,
        "Chinese"@ != "zh"@,
        lowercase_of("Chinese"@) == "chinese"@,
{
    lemma_language_literals();
    assert(lowercase_of("Chinese"@) =~= "chinese"@);
}

proof fn lemma_row_arabic()
    ensures
        code_for_part("ar"@) == Some("ar"@),
        code_for_part("ara"@) == Some("ar"@),
        code_for_part("arabic"@) == Some("ar"@),
        language_name("ar"@) == "Arabic"@,
        language_name("ara"@) == "Arabic"@,
        "Arabic"@ != "ar"@,
        lowercase_of("Arabic"@) == "arabic"@,
{
    lemma_language_literals();
    assert(lowercase_of("Arabic"@) =~= "arabic"@);
}

proof fn lemma_row_hindi()
    ensures
        code_for_part("hi"@) == Some("hi"@),
        code_for_part("hin"@) == Some("hi"@),
        code_for_part("hindi"@) == Some("hi"@),
        language_name("hi"@) == "Hindi"@,
        language_name("hin"@) == "Hindi"@,
        "Hindi"@ != "hi"@,
        lowercase_of("Hindi"@) == "hindi"@,
{
    lemma_language_literals();
    assert(lowercase_of("Hindi"@) =~= "hindi"@);
}

proof fn lemma_row_swedish()
    ensures
        code_for_part("sv"@) == Some("sv"@),
        code_for_part("swe"@) == Some("sv"@),
        code_for_part("swedish"@) == Some("sv"@),
        language_name("sv"@) == "Swedish"@,
        language_name("swe"@) == "Swedish"@,
        "Swedish"@ != "sv"@,
        lowercase_of("Swedish"@) == "swedish"@,
{
    lemma_language_literals();
    assert(lowercase_of("Swedish"@) =~= "swedish"@);
}

proof fn lemma_row_norwegian()
    ensures
        code_for_part("no"@) == Some("no"@),
        code_for_part("nor"@) == Some("no"@),
        code_for_part("norwegian"@) == Some("no"@),
        language_name("no"@) == "Norwegian"@,
        language_name("nor"@) == "Norwegian"@,
        "Norwegian"@ != "no"@,
        lowercase_of("Norwegian"@) == "norwegian"@,
{
    lemma_language_literals();
    assert(lowercase_of("Norwegian"@) =~= "norwegian"@);
}

proof fn lemma_row_danish()
    ensures
        code_for_part("da"@) == Some("da"@),
        code_for_part("dan"@) == Some("da"@),
        code_for_part("danish"@) == Some("da"@),
        language_name("da"@) == "Danish"@,
        language_name("dan"@) == "Danish"@,
        "Danish"@ != "da"@,
        lowercase_of("Danish"@) == "danish"@,
{
    lemma_language_literals();
    assert(lowercase_of("Danish"@) =~= "danish"@);
}

proof fn lemma_row_finnish()
    ensures
        code_for_part("fi"@) == Some("fi"@),
        code_for_part("fin"@) == Some("fi"@),
        code_for_part("finnish"@) == Some("fi"@),
        language_name("fi"@) == "Finnish"@,
        language_name("fin"@) == "Finnish"@,
        "Finnish"@ != "fi"@,
        lowercase_of("Finnish"@) == "finnish"@,
{
    lemma_language_literals();
    assert(lowercase_of("Finnish"@) =~= "finnish"@);
}

proof fn lemma_row_polish()
    ensures
        code_for_part("pl"@) == Some("pl"@),
        code_for_part("pol"@) == Some("pl"@),
        code_for_part("polish"@) == Some("pl"@),
        language_name("pl"@) == "Polish"@,
        language_name("pol"@) == "Polish"@,
        "Polish"@ != "pl"@,
        lowercase_of("Polish"@) == "polish"@,
{
    lemma_language_literals();
    assert(lowercase_of("Polish"@) =~= "polish"@);
}

proof fn lemma_row_turkish()
    ensures
        code_for_part("tr"@) == Some("tr"@),
        code_for_part("tur"@) == Some("tr"@),
        code_for_part("turkish"@) == Some("tr"@),
        language_name("tr"@) == "Turkish"@,
        language_name("tur"@) == "Turkish"@,
        "Turkish"@ != "tr"@,
        lowercase_of("Turkish"@) == "turkish"@,
{
    lemma_language_literals();
    assert(lowercase_of("Turkish"@) =~= "turkish"@);
}

proof fn lemma_row_sdh()
    ensures
        code_for_part("sdh"@) == Some("en"@),
{
    lemma_language_literals();
}

/// Law: the language tables agree. A code or name that a file name may hold
/// stands for a code that stands for itself and has a display name of its
/// own; that name is the one the part's own code has, or, for a part that
/// is a full language name, the part itself up to letter case. So each
/// language's codes and name lead to that language alone, and no two
/// languages share a code or a display name.
pub proof fn law_language_rows(part: Seq<char>)
    requires
        code_for_part(part) is Some,
        part != "sdh"@,
    ensures
        ({
            let c = code_for_part(part).unwrap();
            &&& code_for_part(c) == Some(c)
            &&& language_name(c) != c
            &&& (language_name(part) == language_name(c) || lowercase_of(language_name(c)) == part)
        }),
        language_name(code_for_part("sdh"@).unwrap()) == "English"@,
{
    lemma_row_sdh();
    lemma_row_english();
    if part == "en"@ || part == "eng"@ || part == "english"@ {
        lemma_row_english();
    } else if part == "es"@ || part == "spa"@ || part == "spanish"@ {
        lemma_row_spanish();
    } else if part == "fr"@ || part == "fre"@ || part == "french"@ {
        lemma_row_french();
    } else if part == "de"@ || part == "ger"@ || part == "german"@ {
        lemma_row_german();
    } else if part == "it"@ || part == "ita"@ || part == "italian"@ {
        lemma_row_italian();
    } else if part == "pt"@ || part == "por"@ || part == "portuguese"@ {
        lemma_row_portuguese();
    } else if part == "nl"@ || part == "dut"@ || part == "dutch"@ {
        lemma_row_dutch();
    } else if part == "ru"@ || part == "rus"@ || part == "russian"@ {
        lemma_row_russian();
    } else if part == "ja"@ || part == "jpn"@ || part == "japanese"@ {
        lemma_row_japanese();
    } else if part == "ko"@ || part == "kor"@ || part == "korean"@ {
        lemma_row_korean();
    } else if part == "zh"@ || part == "chi"@ || part == "chinese"@ {
        lemma_row_chinese();
    } else if part == "ar"@ || part == "ara"@ || part == "arabic"@ {
        lemma_row_arabic();
    } else if part == "hi"@ || part == "hin"@ || part == "hindi"@ {
        lemma_row_hindi();
    } else if part == "sv"@ || part == "swe"@ || part == "swedish"@ {
        lemma_row_swedish();
    } else if part == "no"@ || part == "nor"@ || part == "norwegian"@ {
        lemma_row_norwegian();
    } else if part == "da"@ || part == "dan"@ || part == "danish"@ {
        lemma_row_danish();
    } else if part == "fi"@ || part == "fin"@ || part == "finnish"@ {
        lemma_row_finnish();
    } else if part == "pl"@ || part == "pol"@ || part == "polish"@ {
        lemma_row_polish();
    } else if part == "tr"@ || part == "tur"@ || part == "turkish"@ {
        lemma_row_turkish();
    }
}

} // verus!
