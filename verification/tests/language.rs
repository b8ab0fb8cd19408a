use pizerarr::language::{guess_language, lang_name};

#[test]
fn language_codes_and_names_in_file_names() {
    assert_eq!(guess_language("movie.en.srt", "movie"), "en");
    assert_eq!(guess_language("movie.english.srt", "movie"), "en");
    assert_eq!(guess_language("Movie.ENG.srt", "movie"), "en");
    assert_eq!(guess_language("movie.fre.srt", "movie"), "fr");
    assert_eq!(guess_language("movie.German.forced.srt", "movie"), "de");
    assert_eq!(guess_language("English.srt", "movie"), "en");
}

#[test]
fn sdh_subtitles_are_taken_as_english() {
    assert_eq!(guess_language("movie.sdh.srt", "movie"), "en");
}

#[test]
fn short_unknown_components_are_kept_as_codes() {
    assert_eq!(guess_language("movie.xyz.srt", "movie"), "xyz");
    assert_eq!(guess_language("movie.srt", "movie"), "srt");
    assert_eq!(guess_language("movie..pt-BR.srt", "movie"), "und");
}

#[test]
fn whole_names_mentioning_a_language() {
    assert_eq!(guess_language("2_Spanish.Forced.srt", "movie"), "es");
    assert_eq!(guess_language("forced.french.track.srt", "movie"), "fr");
    assert_eq!(guess_language("Movie.Forced.srt", "other"), "und");
    assert_eq!(guess_language("noextension", "movie"), "und");
}

#[test]
fn lowercasing_is_unicode_aware() {
    assert_eq!(guess_language("FILM.\u{C9}\u{C9}.srt", "film"), "und");
    assert_eq!(guess_language("FILM.\u{C9}.srt", "film"), "\u{e9}");
}

#[test]
fn language_names() {
    assert_eq!(lang_name("en"), "English");
    assert_eq!(lang_name("eng"), "English");
    assert_eq!(lang_name("tur"), "Turkish");
    assert_eq!(lang_name("xx"), "xx");
    assert_eq!(lang_name(lang_name("pt")), "Portuguese");
}

/// The language guess written directly with std's string methods.
fn std_guess(filename: &str, video_stem: &str) -> String {
    let lower = filename.to_lowercase();
    let suffix = lower.strip_prefix(&video_stem.to_lowercase()).unwrap_or(&lower).trim_start_matches('.');
    let lang_part = suffix.split('.').next().unwrap_or("");
    let table: [(&[&str], &str); 20] = [
        (&["en", "eng", "english"], "en"),
        (&["es", "spa", "spanish"], "es"),
        (&["fr", "fre", "french"], "fr"),
        (&["de", "ger", "german"], "de"),
        (&["it", "ita", "italian"], "it"),
        (&["pt", "por", "portuguese"], "pt"),
        (&["nl", "dut", "dutch"], "nl"),
        (&["ru", "rus", "russian"], "ru"),
        (&["ja", "jpn", "japanese"], "ja"),
        (&["ko", "kor", "korean"], "ko"),
        (&["zh", "chi", "chinese"], "zh"),
        (&["ar", "ara", "arabic"], "ar"),
        (&["hi", "hin", "hindi"], "hi"),
        (&["sv", "swe", "swedish"], "sv"),
        (&["no", "nor", "norwegian"], "no"),
        (&["da", "dan", "danish"], "da"),
        (&["fi", "fin", "finnish"], "fi"),
        (&["pl", "pol", "polish"], "pl"),
        (&["tr", "tur", "turkish"], "tr"),
        (&["sdh"], "en"),
    ];
    for (names, code) in table.iter() {
        if names.contains(&lang_part) {
            return code.to_string();
        }
    }
    if lang_part.len() == 2 || lang_part.len() == 3 {
        return lang_part.to_string();
    }
    let name_no_ext = filename.rsplit('.').skip(1).collect::<Vec<_>>().join(".");
    let name_lower = name_no_ext.to_lowercase();
    if name_lower.contains("english") {
        return "en".into();
    }
    if name_lower.contains("spanish") {
        return "es".into();
    }
    if name_lower.contains("french") {
        return "fr".into();
    }
    "und".into()
}

#[test]
fn guesses_match_std_string_methods() {
    let stems = ["movie", "Movie", "", "m", "MOVIE.2020", "\u{c9}t\u{e9}"];
    let parts = [
        "en", "ENG", "English", "sdh", "xx", "pt-BR", "forced", "", ".", "..", "\u{c9}", "\u{c9}\u{c9}",
        "2_French", "spanish.forced", "tur", "no", "x.english",
    ];
    for stem in stems {
        for p in parts {
            for tail in [".srt", "", ".forced.srt"] {
                for f in [
                    format!("{}.{}{}", stem, p, tail),
                    format!("{}{}", p, tail),
                    format!("{}..{}{}", stem, p, tail),
                    format!("{}{}{}", stem.to_uppercase(), p, tail),
                ] {
                    assert_eq!(guess_language(&f, stem), std_guess(&f, stem), "file {:?} stem {:?}", f, stem);
                }
            }
        }
    }
}
