use pizerarr::language::guess_language;
use pizerarr::sizes::{format_bytes, format_size};
use pizerarr::subtitles::{ass_to_vtt, srt_to_vtt};
use pizerarr::text::{decimal_chars, parse_unsigned_chars};
use pizerarr::transcode::{hls_playlist_file, hls_playlist_rel, QueueOutcome, TranscodeJobs};

#[test]
fn decimal_text_parses_back() {
    for n in [0u64, 1, 9, 10, 65535, 4_294_967_296, u64::MAX] {
        assert_eq!(parse_unsigned_chars(&decimal_chars(n as u128), u64::MAX), Some(n));
    }
}

#[test]
fn byte_counts_as_text_read_as_counts() {
    for n in [0u64, 1023, 1_048_576, 1_610_612_736, u64::MAX] {
        assert_eq!(format_bytes(&n.to_string()), format_size(n));
    }
}

#[test]
fn converted_files_start_with_the_header() {
    assert!(srt_to_vtt("").starts_with("WEBVTT\n\n"));
    assert!(srt_to_vtt("1\n00:00:01,000 --> 00:00:02,000\nx\n").starts_with("WEBVTT\n\n"));
    assert!(ass_to_vtt("junk").starts_with("WEBVTT\n\n"));
    let vtt = srt_to_vtt("00:00:01,000 --> 00:00:02,000 align:start,x\nHello, there\n");
    let lines: Vec<&str> = vtt.lines().collect();
    assert!(!lines[2].contains(','));
    assert_eq!(lines[3], "Hello, there");
}

#[test]
fn every_subtitle_gets_a_language() {
    for (f, s) in [("", ""), (".", "x"), ("a.b", "a"), ("\u{0130}.srt", "")] {
        assert!(!guess_language(f, s).is_empty());
    }
}

#[test]
fn queueing_twice_is_queueing_once() {
    let mut jobs = TranscodeJobs::new();
    assert!(matches!(jobs.queue("/m", "/m/a.mkv", "a.mkv", false), QueueOutcome::Queued));
    let first: Vec<String> = jobs.get("a.mkv").unwrap().log.clone();
    assert!(matches!(jobs.queue("/m", "/m/a.mkv", "a.mkv", false), QueueOutcome::Queued));
    let j = jobs.get("a.mkv").unwrap();
    assert_eq!(j.log, first);
    assert_eq!(j.playlist, "hls/a/index.m3u8");
    jobs.complete("a.mkv");
    assert!(matches!(jobs.queue("/m", "/elsewhere", "a.mkv", false), QueueOutcome::Skipped));
    assert_eq!(jobs.get("a.mkv").unwrap().source, "/m/a.mkv");
}

#[test]
fn playlists_lie_where_the_library_lists_them() {
    for media in ["/srv/media", "/srv/media/", "", "rel", "/"] {
        for name in ["Movie (2020).mkv", "a.b.mp4", "x", ".hidden.mkv", "caf\u{e9}.webm"] {
            let rel = hls_playlist_rel(name);
            let joined = std::path::Path::new(media).join(&rel).to_string_lossy().to_string();
            assert_eq!(hls_playlist_file(media, name), joined, "{:?} {:?}", media, name);
            let mut jobs = TranscodeJobs::new();
            jobs.queue(media, "/src", name, false);
            assert_eq!(jobs.get(name).unwrap().playlist, rel);
        }
    }
}

#[test]
fn guesses_ignore_ascii_case() {
    for (f, s) in [
        ("movie.en.srt", "movie"),
        ("Movie.German.forced.srt", "movie"),
        ("show.xyz.srt", "Show"),
        ("2_Spanish.srt", "x"),
        ("film.pt-br.srt", "film"),
        ("", ""),
    ] {
        let g = guess_language(f, s);
        assert_eq!(guess_language(&f.to_ascii_uppercase(), &s.to_ascii_uppercase()), g, "{:?} {:?}", f, s);
        assert_eq!(g.to_lowercase(), g);
    }
}
