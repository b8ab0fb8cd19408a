use pizerarr::library::{
    media_file, media_path, parse_probe_output, probe_unavailable, sort_media_files,
    sort_subtitle_tracks, source_file, storage_totals, subtitle_track, video_container, SubTrack,
};
use pizerarr::sizes::format_size;

fn track(label: &str, lang: &str) -> SubTrack {
    SubTrack { path: format!("p/{}", label), label: label.into(), lang: lang.into(), format: "srt".into() }
}

/// The probe-output reading written directly with std's string methods.
fn std_probe(stdout: &[u8]) -> (String, String, String, Vec<String>) {
    let names = [
        ("en", "English"), ("eng", "English"), ("fre", "French"), ("fr", "French"),
        ("ger", "German"), ("spa", "Spanish"),
    ];
    let text = String::from_utf8_lossy(stdout);
    let mut video_codec = String::new();
    let mut audio_codec = String::new();
    let mut resolution = String::new();
    let mut embedded_subs: Vec<String> = Vec::new();
    for line in text.lines() {
        let parts: Vec<&str> = line.split(',').collect();
        if parts.len() >= 2 {
            let codec = parts[0].trim();
            let ctype = parts[1].trim();
            if ctype == "video" && video_codec.is_empty() {
                video_codec = codec.to_string();
                if parts.len() >= 4 {
                    let w = parts[2].trim();
                    let h = parts[3].trim();
                    if !w.is_empty() && !h.is_empty() && w != "N/A" {
                        resolution = format!("{}x{}", w, h);
                    }
                }
            } else if ctype == "audio" && audio_codec.is_empty() {
                audio_codec = codec.to_string();
            } else if ctype == "subtitle" {
                let lang = parts.get(4).unwrap_or(&"und").trim();
                let title = parts.get(5).unwrap_or(&"").trim();
                let label = if !title.is_empty() {
                    format!("{} ({})", title, codec)
                } else if lang != "und" && !lang.is_empty() {
                    let name = names.iter().find(|(c, _)| *c == lang).map(|(_, n)| *n).unwrap_or(lang);
                    format!("{} ({})", name, codec)
                } else {
                    format!("Track {} ({})", embedded_subs.len() + 1, codec)
                };
                embedded_subs.push(label);
            }
        }
    }
    if video_codec.is_empty() {
        video_codec = "unknown".into();
    }
    if audio_codec.is_empty() {
        audio_codec = "unknown".into();
    }
    (video_codec, audio_codec, resolution, embedded_subs)
}

const PROBE: &[u8] = b"h264,video,1920,1080\r\naac,audio\nac3,audio\nsubrip,subtitle,,,eng,English SDH\nass,subtitle,,,fre\nsubrip,subtitle\nmov_text,subtitle,,,und,\nhevc,video,3840,2160\n";

#[test]
fn probe_output_gives_codecs_resolution_and_tracks() {
    let (v, a, res, subs) = parse_probe_output(PROBE);
    assert_eq!(v, "h264");
    assert_eq!(a, "aac");
    assert_eq!(res, "1920x1080");
    assert_eq!(
        subs,
        vec!["English SDH (subrip)", "French (ass)", "Track 3 (subrip)", "Track 4 (mov_text)"]
    );
    assert_eq!(parse_probe_output(PROBE), std_probe(PROBE));
}

#[test]
fn probe_output_edge_cases() {
    let empty = parse_probe_output(b"");
    assert_eq!(empty, ("unknown".to_string(), "unknown".to_string(), String::new(), vec![]));
    let na = parse_probe_output(b"vp9,video,N/A,N/A\n");
    assert_eq!(na.0, "vp9");
    assert_eq!(na.2, "");
    let no_h = parse_probe_output(b"vp9,video,640\n");
    assert_eq!(no_h.2, "");
    // Invalid UTF-8 is read with replacement characters.
    let bad = parse_probe_output(b"h26\xff4,video,1,2\nopus,audio\n");
    assert_eq!(bad.0, "h26\u{FFFD}4");
    assert_eq!(bad.1, "opus");
    assert_eq!(bad.2, "1x2");
    for s in [&b"a,b,c"[..], b",video,,", b" x , video , 3 , 4 ", b"dvd,subtitle,,,ger", b"\xc3(,audio"] {
        assert_eq!(parse_probe_output(s), std_probe(s), "input {:?}", s);
    }
    assert_eq!(probe_unavailable(), ("unknown".to_string(), "unknown".to_string(), String::new(), vec![]));
}

#[test]
fn video_containers_by_extension() {
    assert_eq!(video_container("Movie.MKV").as_deref(), Some("mkv"));
    assert_eq!(video_container("a.b.mp4").as_deref(), Some("mp4"));
    assert_eq!(video_container("clip.ts").as_deref(), Some("ts"));
    assert_eq!(video_container("notes.txt"), None);
    assert_eq!(video_container("mkv"), None);
    assert_eq!(video_container(".mkv"), None);
}

#[test]
fn subtitle_tracks_next_to_a_video() {
    let t = subtitle_track("Movie.en.srt", "dir/Movie.en.srt", "media", "Movie", false).unwrap();
    assert_eq!(t.path, "dir/Movie.en.srt");
    assert_eq!(t.label, "English (srt)");
    assert_eq!(t.lang, "en");
    assert_eq!(t.format, "srt");

    let d = subtitle_track("movie.FRE.ASS", "Show/movie.FRE.ASS", "downloads", "Movie", false).unwrap();
    assert_eq!(d.path, "dl/Show/movie.FRE.ASS");
    assert_eq!(d.label, "French (ass)");
    assert_eq!(d.lang, "fr");
    assert_eq!(d.format, "ass");

    let u = subtitle_track("Movie.forced-track.srt", "Movie.forced-track.srt", "media", "Movie", false).unwrap();
    assert_eq!(u.lang, "und");
    assert_eq!(u.label, "Movie.forced-track.srt");

    assert!(subtitle_track("Other.en.srt", "Other.en.srt", "media", "Movie", false).is_none());
    let s = subtitle_track("2_English.srt", "Subs/2_English.srt", "media", "Movie", true).unwrap();
    assert_eq!(s.lang, "en");
    assert_eq!(s.label, "English (srt)");
    assert_eq!(s.path, "Subs/2_English.srt");

    assert!(subtitle_track("Movie.en.txt", "Movie.en.txt", "media", "Movie", false).is_none());
    assert!(subtitle_track("Movie", "Movie", "media", "Movie", true).is_none());
}

#[test]
fn subtitle_tracks_sort_english_first_then_by_label() {
    let tracks = vec![
        track("Spanish (srt)", "es"),
        track("English (srt)", "en"),
        track("b-file.srt", "und"),
        track("English (ass)", "eng"),
        track("Arabic (srt)", "ar"),
        track("English (srt)", "en"),
    ];
    let sorted = sort_subtitle_tracks(tracks);
    let labels: Vec<&str> = sorted.iter().map(|t| t.label.as_str()).collect();
    assert_eq!(
        labels,
        vec!["English (ass)", "English (srt)", "English (srt)", "Arabic (srt)", "Spanish (srt)", "b-file.srt"]
    );
    assert!(sort_subtitle_tracks(vec![]).is_empty());
}

#[test]
fn media_files_are_described() {
    let probe = ("h264".to_string(), "aac".to_string(), "1280x720".to_string(), vec!["Track 1 (subrip)".to_string()]);
    let m = media_file("My Movie.MP4".into(), "Films/My Movie.MP4", "downloads", 1_610_612_736, vec![], probe, true)
        .unwrap();
    assert_eq!(m.filename, "My Movie.MP4");
    assert_eq!(m.path, "dl/Films/My Movie.MP4");
    assert_eq!(m.source, "downloads");
    assert_eq!(m.size_bytes, 1_610_612_736);
    assert_eq!(m.size_display, "1.5 GB");
    assert!(m.has_subs);
    assert_eq!(m.container, "mp4");
    assert!(m.browser_playable);
    assert_eq!(m.hls_path.as_deref(), Some("hls/My_Movie/index.m3u8"));
    assert_eq!(m.embedded_subs, vec!["Track 1 (subrip)"]);

    let m2 = media_file("show.mkv".into(), "show.mkv", "media", 2048, vec![track("English (srt)", "en")], probe_unavailable(), false)
        .unwrap();
    assert_eq!(m2.path, "show.mkv");
    assert_eq!(m2.size_display, format_size(2048));
    assert!(m2.has_subs);
    assert!(!m2.browser_playable);
    assert_eq!(m2.hls_path, None);
    assert_eq!(m2.video_codec, "unknown");

    let m3 = media_file("clip.webm".into(), "clip.webm", "media", 0, vec![], ("".into(), "".into(), "".into(), vec![]), false)
        .unwrap();
    assert!(m3.browser_playable);
    assert!(!m3.has_subs);
    let m4 = media_file("clip.webm".into(), "clip.webm", "media", 0, vec![], ("hevc".into(), "".into(), "".into(), vec![]), false)
        .unwrap();
    assert!(!m4.browser_playable);

    assert!(media_file("readme.txt".into(), "readme.txt", "media", 1, vec![], probe_unavailable(), false).is_none());
}

#[test]
fn media_files_sort_by_lowercased_name() {
    let mk = |n: &str| {
        media_file(n.into(), n, "media", 0, vec![], probe_unavailable(), false).unwrap()
    };
    let files = vec![mk("b.mkv"), mk("A.mkv"), mk("a.mkv"), mk("C.mp4")];
    let sorted = sort_media_files(files);
    let names: Vec<&str> = sorted.iter().map(|f| f.filename.as_str()).collect();
    assert_eq!(names, vec!["A.mkv", "a.mkv", "b.mkv", "C.mp4"]);
}

#[test]
fn storage_totals_from_block_counts() {
    assert_eq!(storage_totals(1000, 250, 4096), (4_096_000, 3_072_000, 1_024_000));
    assert_eq!(storage_totals(0, 0, 4096), (0, 0, 0));
    let (t, u, f) = storage_totals(u64::MAX, 1, 2);
    assert_eq!(t, u64::MAX.wrapping_mul(2));
    assert_eq!(f, 2);
    assert_eq!(u, t.wrapping_sub(f));
}

#[test]
fn served_paths_resolve_to_files() {
    assert_eq!(media_path("/media", "/downloads", "dl/Show/e1.mkv"), "/downloads/Show/e1.mkv");
    assert_eq!(media_path("/media", "/downloads", "Films/x.mkv"), "/media/Films/x.mkv");
    assert_eq!(media_path("/media", "/downloads", "/etc/passwd"), "/etc/passwd");
    assert_eq!(source_file("/media", "/dl", "downloads", "dl/a.mkv"), "/dl/a.mkv");
    assert_eq!(source_file("/media", "/dl", "downloads", "a.mkv"), "/dl/a.mkv");
    assert_eq!(source_file("/media", "/dl", "media", "dl/a.mkv"), "/media/dl/a.mkv");
    // A track listed for the download directory resolves back to its file.
    let t = subtitle_track("Movie.en.srt", "Show/Movie.en.srt", "downloads", "Movie", false).unwrap();
    assert_eq!(media_path("/media", "/downloads", &t.path), "/downloads/Show/Movie.en.srt");
}
