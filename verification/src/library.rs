//! The media library: which files count as videos and subtitles, how a
//! subtitle track is described, what ffprobe's output says about a video,
//! and how the listings are ordered.

use vstd::prelude::*;
use crate::language::{guess_language, guessed_language, lang_name, language_name};
use crate::paths::{extension_of, join, join_path, lemma_extension_after, split_extension};
use crate::sizes::{format_size, size_text};
use crate::sorting::{key_le, sort_by_keys, lemma_sorted_keys, stably_sorted, text_le, SortKey};
use crate::text::{chars_of, decimal, decimal_chars, is_text, lines, lines_of, push_all, split_char, split_chars, starts_with, starts_with_exec, trim, trim_chars, views};
use crate::trusted::{is_ascii_text, lowercase, lowercase_of, string_of, utf8_lossy, utf8_lossy_of};

verus! {

/// An external subtitle file that belongs to a video.
#[derive(Debug)]
pub struct SubTrack {
    pub path: String,
    pub label: String,
    pub lang: String,
    pub format: String,
}

/// The texts of a subtitle track.
pub struct SubTrackView {
    pub path: Seq<char>,
    pub label: Seq<char>,
    pub lang: Seq<char>,
    pub format: Seq<char>,
}

impl View for SubTrack {
    type V = SubTrackView;

    open spec fn view(&self) -> SubTrackView {
        SubTrackView { path: self.path@, label: self.label@, lang: self.lang@, format: self.format@ }
    }
}

/// Lowercased extensions of the files that are taken as videos.
pub open spec fn is_video_extension(e: Seq<char>) -> bool {
    e == "mp4"@ || e == "mkv"@ || e == "avi"@ || e == "mov"@ || e == "wmv"@ || e == "flv"@ || e
        == "webm"@ || e == "m4v"@ || e == "mpg"@ || e == "mpeg"@ || e == "ts"@
}

/// Lowercased extensions of the files that are taken as subtitles.
pub open spec fn is_subtitle_extension(e: Seq<char>) -> bool {
    e == "srt"@ || e == "vtt"@ || e == "ass"@ || e == "ssa"@ || e == "sub"@ || e == "idx"@
}

fn is_video_extension_exec(e: &[char]) -> (b: bool)
    ensures
        b == is_video_extension(e@),
{
    is_text(e, "mp4") || is_text(e, "mkv") || is_text(e, "avi") || is_text(e, "mov") || is_text(
        e,
        "wmv",
    ) || is_text(e, "flv") || is_text(e, "webm") || is_text(e, "m4v") || is_text(e, "mpg")
        || is_text(e, "mpeg") || is_text(e, "ts")
}

fn is_subtitle_extension_exec(e: &[char]) -> (b: bool)
    ensures
        b == is_subtitle_extension(e@),
{
    is_text(e, "srt") || is_text(e, "vtt") || is_text(e, "ass") || is_text(e, "ssa") || is_text(
        e,
        "sub",
    ) || is_text(e, "idx")
}

fn lowercase_chars(v: &[char]) -> (r: Vec<char>)
    ensures
        r@ == lowercase_of(v@),
{
    let s = string_of(v);
    let l = lowercase(s.as_str());
    chars_of(l.as_str())
}

/// The lowercased extension of a file name, when it marks a video file:
/// the file's container.
pub open spec fn video_container_of(name: Seq<char>) -> Option<Seq<char>> {
    match extension_of(name) {
        Some(e) => if is_video_extension(lowercase_of(e)) {
            Some(lowercase_of(e))
        } else {
            None
        },
        None => None,
    }
}

/// The container of a video file (its lowercased extension), or `None` when
/// the file name does not mark a video.
pub fn video_container(file_name: &str) -> (r: Option<String>)
    ensures
        match r {
            Some(c) => video_container_of(file_name@) == Some(c@),
            None => video_container_of(file_name@) is None,
        },
{
    let name = chars_of(file_name);
    let (_stem, ext) = split_extension(name.as_slice());
    match ext {
        Some(e) => {
            let low = lowercase_chars(e.as_slice());
            if is_video_extension_exec(low.as_slice()) {
                Some(string_of(low.as_slice()))
            } else {
                None
            }
        },
        None => None,
    }
}

/// The path under which a file is served: files of the download directory
/// live under `dl/`.
pub open spec fn served_path(source: Seq<char>, rel: Seq<char>) -> Seq<char> {
    if source == "downloads"@ {
        "dl/"@ + rel
    } else {
        rel
    }
}

fn served_path_chars(source: &[char], rel: &[char]) -> (r: Vec<char>)
    ensures
        r@ == served_path(source@, rel@),
{
    if is_text(source, "downloads") {
        let mut out = chars_of("dl/");
        push_all(&mut out, rel);
        out
    } else {
        crate::text::copy_range(rel, 0, rel.len())
    }
}

/// The label of a subtitle track: the file name when the language is not
/// known, else the language's name and the format.
pub open spec fn track_label(file_name: Seq<char>, lang: Seq<char>, format: Seq<char>) -> Seq<char> {
    if lang == "und"@ {
        file_name
    } else {
        language_name(lang) + " ("@ + format + ")"@
    }
}

/// The track that a file found next to a video (or in a subtitles folder
/// beside it) gives: a subtitle extension is needed, and outside a subtitles
/// folder the name must start with the video's stem (ignoring case).
pub open spec fn subtitle_track_of(
    file_name: Seq<char>,
    rel_path: Seq<char>,
    source: Seq<char>,
    video_stem: Seq<char>,
    in_subs_dir: bool,
) -> Option<SubTrackView> {
    match extension_of(file_name) {
        None => None,
        Some(e) => {
            let format = lowercase_of(e);
            if !is_subtitle_extension(format) {
                None
            } else if !starts_with(lowercase_of(file_name), lowercase_of(video_stem)) && !in_subs_dir {
                None
            } else {
                let lang = guessed_language(file_name, video_stem);
                Some(
                    SubTrackView {
                        path: served_path(source, rel_path),
                        label: track_label(file_name, lang, format),
                        lang,
                        format,
                    },
                )
            }
        },
    }
}

/// Describes a file found while looking for a video's subtitles: `file_name`
/// is its name, `rel_path` its path relative to the scanned directory,
/// `source` the directory's kind (`"media"` or `"downloads"`), `video_stem`
/// the video's file stem, and `in_subs_dir` whether it lies in a `Subs` or
/// `Subtitles` folder rather than beside the video.
pub fn subtitle_track(
    file_name: &str,
    rel_path: &str,
    source: &str,
    video_stem: &str,
    in_subs_dir: bool,
) -> (r: Option<SubTrack>)
    ensures
        match r {
            Some(t) => subtitle_track_of(file_name@, rel_path@, source@, video_stem@, in_subs_dir)
                == Some(t@),
            None => subtitle_track_of(file_name@, rel_path@, source@, video_stem@, in_subs_dir) is None,
        },
{
    let name = chars_of(file_name);
    let (_stem, ext) = split_extension(name.as_slice());
    let e = match ext {
        Some(e) => e,
        None => return None,
    };
    let format = lowercase_chars(e.as_slice());
    if !is_subtitle_extension_exec(format.as_slice()) {
        return None;
    }
    let low_name = lowercase_chars(name.as_slice());
    let low_stem = lowercase_chars(chars_of(video_stem).as_slice());
    if !starts_with_exec(low_name.as_slice(), low_stem.as_slice()) && !in_subs_dir {
        return None;
    }
    let lang = guess_language(file_name, video_stem);
    let lang_v = chars_of(lang.as_str());
    let label = if is_text(lang_v.as_slice(), "und") {
        string_of(name.as_slice())
    } else {
        let mut l = chars_of(lang_name(lang.as_str()));
        push_all(&mut l, chars_of(" (").as_slice());
        push_all(&mut l, format.as_slice());
        push_all(&mut l, chars_of(")").as_slice());
        string_of(l.as_slice())
    };
    let path = served_path_chars(chars_of(source).as_slice(), chars_of(rel_path).as_slice());
    Some(
        SubTrack {
            path: string_of(path.as_slice()),
            label,
            lang,
            format: string_of(format.as_slice()),
        },
    )
}

/// The order of subtitle tracks: English (`en` or `eng`) first, then by
/// label.
pub open spec fn track_order(t: SubTrack) -> (int, Seq<char>) {
    (if t.lang@ == "en"@ || t.lang@ == "eng"@ {
        0
    } else {
        1
    }, t.label@)
}

/// Sorts subtitle tracks: English first, then alphabetically by label;
/// tracks that tie keep their order.
pub fn sort_subtitle_tracks(tracks: Vec<SubTrack>) -> (r: Vec<SubTrack>)
    ensures
        stably_sorted(tracks@, r@, |t: SubTrack| track_order(t)),
{
    let mut keys: Vec<SortKey> = Vec::new();
    let mut i: usize = 0;
    while i < tracks.len()
        invariant
            i <= tracks@.len(),
            keys@.len() == i,
            forall|j: int| 0 <= j < i ==> #[trigger] keys@[j].view_key() == track_order(tracks@[j]),
        decreases tracks@.len() - i,
    {
        let t = &tracks[i];
        let lang = chars_of(t.lang.as_str());
        let en = is_text(lang.as_slice(), "en") || is_text(lang.as_slice(), "eng");
        keys.push(SortKey { rank: if en { 0 } else { 1 }, text: chars_of(t.label.as_str()) });
        i += 1;
    }
    sort_by_keys(tracks, keys, Ghost(|t: SubTrack| track_order(t)))
}

/// What has been read from ffprobe's stream lines so far.
pub struct ProbeState {
    pub video: Seq<char>,
    pub audio: Seq<char>,
    pub resolution: Seq<char>,
    pub subs: Seq<Seq<char>>,
}

/// The label of an embedded subtitle stream: its title, else its language's
/// name, else its number; each with the codec in brackets.
pub open spec fn embedded_label(
    title: Seq<char>,
    lang: Seq<char>,
    number: nat,
    codec: Seq<char>,
) -> Seq<char> {
    if title.len() > 0 {
        title + " ("@ + codec + ")"@
    } else if lang != "und"@ && lang.len() > 0 {
        language_name(lang) + " ("@ + codec + ")"@
    } else {
        "Track "@ + decimal(number) + " ("@ + codec + ")"@
    }
}

/// One line of ffprobe's `codec_name,codec_type,width,height,language,title`
/// output: the first video stream gives the video codec (and the resolution
/// `WxH` when both sizes are there and the width is not `N/A`), the first
/// audio stream the audio codec, and every subtitle stream a label.
pub open spec fn probe_step(st: ProbeState, line: Seq<char>) -> ProbeState {
    let parts = split_char(line, ',');
    if parts.len() < 2 {
        st
    } else {
        let codec = trim(parts[0]);
        let ctype = trim(parts[1]);
        if ctype == "video"@ && st.video.len() == 0 {
            let resolution = if parts.len() >= 4 {
                let w = trim(parts[2]);
                let h = trim(parts[3]);
                if w.len() > 0 && h.len() > 0 && w != "N/A"@ {
                    w + seq!['x'] + h
                } else {
                    st.resolution
                }
            } else {
                st.resolution
            };
            ProbeState { video: codec, audio: st.audio, resolution, subs: st.subs }
        } else if ctype == "audio"@ && st.audio.len() == 0 {
            ProbeState { video: st.video, audio: codec, resolution: st.resolution, subs: st.subs }
        } else if ctype == "subtitle"@ {
            let lang = if parts.len() > 4 {
                trim(parts[4])
            } else {
                "und"@
            };
            let title = if parts.len() > 5 {
                trim(parts[5])
            } else {
                seq![]
            };
            let label = embedded_label(title, lang, st.subs.len() + 1, codec);
            ProbeState {
                video: st.video,
                audio: st.audio,
                resolution: st.resolution,
                subs: st.subs.push(label),
            }
        } else {
            st
        }
    }
}

/// The state after reading all of `ls`.
pub open spec fn probe_lines(ls: Seq<Seq<char>>) -> ProbeState
    decreases ls.len(),
{
    if ls.len() == 0 {
        ProbeState { video: seq![], audio: seq![], resolution: seq![], subs: seq![] }
    } else {
        probe_step(probe_lines(ls.drop_last()), ls.last())
    }
}

/// `unknown` in place of a codec that was not found.
pub open spec fn or_unknown(codec: Seq<char>) -> Seq<char> {
    if codec.len() == 0 {
        "unknown"@
    } else {
        codec
    }
}

/// The texts held by a vector of strings.
pub open spec fn string_views(v: Seq<String>) -> Seq<Seq<char>> {
    v.map_values(|s: String| s@)
}

/// What a video's probe says: video codec, audio codec, resolution and the
/// labels of the embedded subtitle streams.
pub open spec fn probe_result(stdout: Seq<u8>) -> (Seq<char>, Seq<char>, Seq<char>, Seq<Seq<char>>) {
    let st = probe_lines(lines_of(utf8_lossy_of(stdout)));
    (or_unknown(st.video), or_unknown(st.audio), st.resolution, st.subs)
}

fn strings_of(v: &Vec<Vec<char>>) -> (r: Vec<String>)
    ensures
        string_views(r@) == views(v@),
{
    let mut r: Vec<String> = Vec::new();
    let mut i: usize = 0;
    while i < v.len()
        invariant
            i <= v@.len(),
            string_views(r@) == views(v@).take(i as int),
        decreases v@.len() - i,
    {
        let ghost prev = string_views(r@);
        let s = string_of(v[i].as_slice());
        r.push(s);
        proof {
            assert(views(v@)[i as int] == v@[i as int]@);
            assert(string_views(r@) =~= prev.push(s@));
            assert(views(v@).take(i + 1) =~= views(v@).take(i as int).push(v@[i as int]@));
        }
        i += 1;
    }
    proof {
        assert(views(v@).take(i as int) =~= views(v@));
    }
    r
}

fn labelled(head: &[char], codec: &[char]) -> (r: Vec<char>)
    ensures
        r@ == head@ + " ("@ + codec@ + ")"@,
{
    let mut out = crate::text::copy_range(head, 0, head.len());
    proof {
        assert(head@.subrange(0, head@.len() as int) =~= head@);
    }
    push_all(&mut out, chars_of(" (").as_slice());
    push_all(&mut out, codec);
    push_all(&mut out, chars_of(")").as_slice());
    out
}

/// Reads ffprobe's stream listing (`-show_entries
/// stream=codec_name,codec_type,width,height:stream_tags=language,title -of
/// csv=p=0`): video codec, audio codec, resolution and embedded subtitle
/// labels; a codec that is not found is `unknown`.
pub fn parse_probe_output(stdout: &[u8]) -> (r: (String, String, String, Vec<String>))
    ensures
        r.0@ == probe_result(stdout@).0,
        r.1@ == probe_result(stdout@).1,
        r.2@ == probe_result(stdout@).2,
        string_views(r.3@) == probe_result(stdout@).3,
{
    let text = utf8_lossy(stdout);
    let src = chars_of(text.as_str());
    let ls = lines(src.as_slice());
    let mut video: Vec<char> = Vec::new();
    let mut audio: Vec<char> = Vec::new();
    let mut resolution: Vec<char> = Vec::new();
    let mut subs: Vec<Vec<char>> = Vec::new();
    let mut i: usize = 0;
    proof {
        assert(views(ls@).take(0) =~= Seq::<Seq<char>>::empty());
        assert(views(subs@) =~= Seq::<Seq<char>>::empty());
    }
    while i < ls.len()
        invariant
            i <= ls@.len(),
            views(ls@) == lines_of(utf8_lossy_of(stdout@)),
            ({
                let st = probe_lines(views(ls@).take(i as int));
                st.video == video@ && st.audio == audio@ && st.resolution == resolution@
                    && st.subs == views(subs@)
            }),
        decreases ls@.len() - i,
    {
        let line = &ls[i];
        let ghost before = probe_lines(views(ls@).take(i as int));
        proof {
            let t = views(ls@).take(i + 1);
            assert(t.drop_last() =~= views(ls@).take(i as int));
            assert(t.last() == line@);
            assert(views(ls@)[i as int] == line@);
        }
        let parts = split_chars(line.as_slice(), ',');
        if parts.len() >= 2 {
            proof {
                assert(views(parts@)[0] == parts@[0]@);
                assert(views(parts@)[1] == parts@[1]@);
            }
            let codec = trim_chars(parts[0].as_slice());
            let ctype = trim_chars(parts[1].as_slice());
            if is_text(ctype.as_slice(), "video") && video.len() == 0 {
                video = codec;
                if parts.len() >= 4 {
                    proof {
                        assert(views(parts@)[2] == parts@[2]@);
                        assert(views(parts@)[3] == parts@[3]@);
                    }
                    let w = trim_chars(parts[2].as_slice());
                    let h = trim_chars(parts[3].as_slice());
                    if w.len() > 0 && h.len() > 0 && !is_text(w.as_slice(), "N/A") {
                        let mut res = w;
                        res.push('x');
                        push_all(&mut res, h.as_slice());
                        resolution = res;
                    }
                }
            } else if is_text(ctype.as_slice(), "audio") && audio.len() == 0 {
                audio = codec;
            } else if is_text(ctype.as_slice(), "subtitle") {
                let lang = if parts.len() > 4 {
                    proof {
                        assert(views(parts@)[4] == parts@[4]@);
                    }
                    trim_chars(parts[4].as_slice())
                } else {
                    chars_of("und")
                };
                let title = if parts.len() > 5 {
                    proof {
                        assert(views(parts@)[5] == parts@[5]@);
                    }
                    trim_chars(parts[5].as_slice())
                } else {
                    Vec::new()
                };
                let label = if title.len() > 0 {
                    labelled(title.as_slice(), codec.as_slice())
                } else if !is_text(lang.as_slice(), "und") && lang.len() > 0 {
                    let name = chars_of(lang_name(string_of(lang.as_slice()).as_str()));
                    labelled(name.as_slice(), codec.as_slice())
                } else {
                    let mut head = chars_of("Track ");
                    proof {
                        assert(views(subs@).len() == subs@.len());
                    }
                    push_all(&mut head, decimal_chars(subs.len() as u128 + 1).as_slice());
                    labelled(head.as_slice(), codec.as_slice())
                };
                let ghost old_subs = views(subs@);
                proof {
                    assert(label@ == embedded_label(title@, lang@, (before.subs.len() + 1) as nat, codec@));
                }
                subs.push(label);
                proof {
                    assert(views(subs@) =~= old_subs.push(label@));
                }
            }
        }
        i += 1;
    }
    proof {
        assert(views(ls@).take(i as int) =~= views(ls@));
    }
    let v = if video.len() == 0 {
        chars_of("unknown")
    } else {
        video
    };
    let a = if audio.len() == 0 {
        chars_of("unknown")
    } else {
        audio
    };
    (string_of(v.as_slice()), string_of(a.as_slice()), string_of(resolution.as_slice()), strings_of(&subs))
}

/// A video file of the library, with what is known about it.
#[derive(Debug)]
pub struct MediaFile {
    pub filename: String,
    pub path: String,
    pub source: String,
    pub size_bytes: u64,
    pub size_display: String,
    pub has_subs: bool,
    pub subtitle_tracks: Vec<SubTrack>,
    pub video_codec: String,
    pub audio_codec: String,
    pub resolution: String,
    pub container: String,
    pub browser_playable: bool,
    pub hls_path: Option<String>,
    /// Embedded subtitle tracks detected by ffprobe
    pub embedded_subs: Vec<String>,
}

/// Whether a browser plays a file as it is: an MP4, WebM or M4V container
/// with H.264, VP8 or VP9 video (or no video codec named).
pub open spec fn plays_in_browser(container: Seq<char>, video_codec: Seq<char>) -> bool {
    (container == "mp4"@ || container == "webm"@ || container == "m4v"@) && (video_codec == "h264"@
        || video_codec == "vp8"@ || video_codec == "vp9"@ || video_codec.len() == 0)
}

fn plays_in_browser_exec(container: &[char], video_codec: &[char]) -> (b: bool)
    ensures
        b == plays_in_browser(container@, video_codec@),
{
    (is_text(container, "mp4") || is_text(container, "webm") || is_text(container, "m4v")) && (
    is_text(video_codec, "h264") || is_text(video_codec, "vp8") || is_text(video_codec, "vp9")
        || video_codec.len() == 0)
}

/// The library entry for a video file: `filename` is its name, `rel_path`
/// its path relative to the scanned directory, `source` `"media"` or
/// `"downloads"`, `subtitle_tracks` the external subtitles found for it,
/// `probe` what `parse_probe_output` read, and `hls_playlist_exists` whether
/// its HLS playlist exists. `None` when the name does not mark a video.
pub fn media_file(
    filename: String,
    rel_path: &str,
    source: &str,
    size_bytes: u64,
    subtitle_tracks: Vec<SubTrack>,
    probe: (String, String, String, Vec<String>),
    hls_playlist_exists: bool,
) -> (r: Option<MediaFile>)
    ensures
        video_container_of(filename@) is None ==> r is None,
        video_container_of(filename@) matches Some(c) ==> (r matches Some(m) && {
            &&& m.filename@ == filename@
            &&& m.path@ == served_path(source@, rel_path@)
            &&& m.source@ == source@
            &&& m.size_bytes == size_bytes
            &&& m.size_display@ == size_text(size_bytes as nat)
            &&& m.has_subs == (subtitle_tracks@.len() > 0 || probe.3@.len() > 0)
            &&& m.subtitle_tracks@ == subtitle_tracks@
            &&& m.video_codec@ == probe.0@
            &&& m.audio_codec@ == probe.1@
            &&& m.resolution@ == probe.2@
            &&& m.container@ == c
            &&& m.browser_playable == plays_in_browser(c, probe.0@)
            &&& (hls_playlist_exists ==> (m.hls_path matches Some(h) && h@
                == crate::transcode::hls_playlist_rel_of(filename@)))
            &&& (!hls_playlist_exists ==> m.hls_path is None)
            &&& m.embedded_subs@ == probe.3@
        }),
{
    let container = match video_container(filename.as_str()) {
        Some(c) => c,
        None => return None,
    };
    let path = served_path_chars(chars_of(source).as_slice(), chars_of(rel_path).as_slice());
    let (video_codec, audio_codec, resolution, embedded_subs) = probe;
    let browser_playable = plays_in_browser_exec(
        chars_of(container.as_str()).as_slice(),
        chars_of(video_codec.as_str()).as_slice(),
    );
    let hls_path = if hls_playlist_exists {
        Some(crate::transcode::hls_playlist_rel(filename.as_str()))
    } else {
        None
    };
    let has_subs = subtitle_tracks.len() > 0 || embedded_subs.len() > 0;
    Some(
        MediaFile {
            path: string_of(path.as_slice()),
            source: string_of(chars_of(source).as_slice()),
            size_bytes,
            size_display: format_size(size_bytes),
            has_subs,
            subtitle_tracks,
            video_codec,
            audio_codec,
            resolution,
            container,
            browser_playable,
            hls_path,
            embedded_subs,
            filename,
        },
    )
}

/// The order of the library listing: by file name, ignoring case.
pub open spec fn media_order(f: MediaFile) -> (int, Seq<char>) {
    (0, lowercase_of(f.filename@))
}

/// Sorts the library's files by name, ignoring case; files whose lowercased
/// names are equal keep their order.
pub fn sort_media_files(files: Vec<MediaFile>) -> (r: Vec<MediaFile>)
    ensures
        stably_sorted(files@, r@, |f: MediaFile| media_order(f)),
{
    let mut keys: Vec<SortKey> = Vec::new();
    let mut i: usize = 0;
    while i < files.len()
        invariant
            i <= files@.len(),
            keys@.len() == i,
            forall|j: int| 0 <= j < i ==> #[trigger] keys@[j].view_key() == media_order(files@[j]),
        decreases files@.len() - i,
    {
        let low = lowercase(files[i].filename.as_str());
        keys.push(SortKey { rank: 0, text: chars_of(low.as_str()) });
        i += 1;
    }
    sort_by_keys(files, keys, Ghost(|f: MediaFile| media_order(f)))
}

/// Total, used and free bytes of a file system from `statvfs`'s block count,
/// available block count and fragment size, with the wrapping arithmetic of
/// unchecked `u64` operations in a release build.
pub fn storage_totals(blocks: u64, blocks_available: u64, fragment_size: u64) -> (r: (u64, u64, u64))
    ensures
        r.0 == (blocks * fragment_size) % 0x1_0000_0000_0000_0000,
        r.2 == (blocks_available * fragment_size) % 0x1_0000_0000_0000_0000,
        r.1 == (r.0 - r.2) % 0x1_0000_0000_0000_0000,
{
    let total = blocks.wrapping_mul(fragment_size);
    let free = blocks_available.wrapping_mul(fragment_size);
    let used = total.wrapping_sub(free);
    (total, used, free)
}

/// What a video is taken to hold when ffprobe cannot be run: unknown video
/// and audio codecs, no resolution, no embedded subtitles.
pub fn probe_unavailable() -> (r: (String, String, String, Vec<String>))
    ensures
        r.0@ == "unknown"@,
        r.1@ == "unknown"@,
        r.2@ == Seq::<char>::empty(),
        r.3@.len() == 0,
{
    (String::from_str("unknown"), String::from_str("unknown"), String::new(), Vec::new())
}

/// The file that a served path names: paths under `dl/` are in the download
/// directory, all others in the media directory.
pub open spec fn media_path_of(media_dir: Seq<char>, download_dir: Seq<char>, path: Seq<char>) -> Seq<char> {
    if starts_with(path, "dl/"@) {
        join_path(download_dir, path.skip(3))
    } else {
        join_path(media_dir, path)
    }
}

/// The file that a served path names.
pub fn media_path(media_dir: &str, download_dir: &str, path: &str) -> (r: String)
    ensures
        r@ == media_path_of(media_dir@, download_dir@, path@),
{
    let p = chars_of(path);
    let dl = chars_of("dl/");
    proof {
        reveal_strlit("dl/");
    }
    let r = if starts_with_exec(p.as_slice(), dl.as_slice()) {
        let rel = crate::text::copy_range(p.as_slice(), 3, p.len());
        proof {
            assert(rel@ =~= p@.skip(3));
        }
        join(chars_of(download_dir).as_slice(), rel.as_slice())
    } else {
        join(chars_of(media_dir).as_slice(), p.as_slice())
    };
    string_of(r.as_slice())
}

/// The file that a library entry's path names, given its source: entries of
/// the download directory are found there (after their `dl/` prefix, if
/// any), all others in the media directory.
pub open spec fn source_file_of(
    media_dir: Seq<char>,
    download_dir: Seq<char>,
    source: Seq<char>,
    path: Seq<char>,
) -> Seq<char> {
    if source == "downloads"@ {
        join_path(
            download_dir,
            if starts_with(path, "dl/"@) {
                path.skip(3)
            } else {
                path
            },
        )
    } else {
        join_path(media_dir, path)
    }
}

/// The file that a library entry's path names, given its source.
pub fn source_file(media_dir: &str, download_dir: &str, source: &str, path: &str) -> (r: String)
    ensures
        r@ == source_file_of(media_dir@, download_dir@, source@, path@),
{
    let p = chars_of(path);
    let dl = chars_of("dl/");
    proof {
        reveal_strlit("dl/");
    }
    let r = if is_text(chars_of(source).as_slice(), "downloads") {
        let rel = if starts_with_exec(p.as_slice(), dl.as_slice()) {
            crate::text::copy_range(p.as_slice(), 3, p.len())
        } else {
            crate::text::copy_range(p.as_slice(), 0, p.len())
        };
        proof {
            assert(p@.subrange(3, p@.len() as int) =~= p@.skip(3));
            assert(p@.subrange(0, p@.len() as int) =~= p@);
        }
        join(chars_of(download_dir).as_slice(), rel.as_slice())
    } else {
        join(chars_of(media_dir).as_slice(), p.as_slice())
    };
    string_of(r.as_slice())
}

/// Law: the path under which a file is served leads back to it: a file of
/// the download directory, served under `dl/`, resolves to that directory;
/// a file of the media directory resolves to the media directory unless its
/// own path starts with `dl/` (then it is taken for a download).
pub proof fn law_served_path_resolves(media_dir: Seq<char>, download_dir: Seq<char>, rel: Seq<char>)
    ensures
        media_path_of(media_dir, download_dir, served_path("downloads"@, rel)) == join_path(
            download_dir,
            rel,
        ),
        !starts_with(rel, "dl/"@) ==> media_path_of(media_dir, download_dir, served_path("media"@, rel))
            == join_path(media_dir, rel),
        source_file_of(media_dir, download_dir, "downloads"@, served_path("downloads"@, rel))
            == join_path(download_dir, rel),
        source_file_of(media_dir, download_dir, "media"@, served_path("media"@, rel)) == join_path(
            media_dir,
            rel,
        ),
{
    reveal_strlit("dl/");
    reveal_strlit("downloads");
    reveal_strlit("media");
    assert("media"@.len() == 5 && "downloads"@.len() == 9);
    assert("media"@ != "downloads"@);
    let p = "dl/"@ + rel;
    assert(p.subrange(0, 3) =~= "dl/"@);
    assert(p.skip(3) =~= rel);
}

/// Law: sorted subtitle tracks list every English track before any other,
/// and tracks of the same group by label.
pub proof fn law_tracks_sorted(tracks: Seq<SubTrack>, sorted: Seq<SubTrack>)
    requires
        stably_sorted(tracks, sorted, |t: SubTrack| track_order(t)),
    ensures
        sorted.len() == tracks.len(),
        forall|i: int, j: int|
            0 <= i < j < sorted.len() ==> (track_order(#[trigger] sorted[i]).0 < track_order(
                #[trigger] sorted[j],
            ).0 || (track_order(sorted[i]).0 == track_order(sorted[j]).0 && text_le(
                sorted[i].label@,
                sorted[j].label@,
            ))),
{
    lemma_sorted_keys(tracks, sorted, |t: SubTrack| track_order(t));
    assert forall|i: int, j: int| 0 <= i < j < sorted.len() implies (track_order(#[trigger] sorted[i]).0
        < track_order(#[trigger] sorted[j]).0 || (track_order(sorted[i]).0 == track_order(
        sorted[j],
    ).0 && text_le(sorted[i].label@, sorted[j].label@))) by {
        assert(key_le(
            (|t: SubTrack| track_order(t))(sorted[i]),
            (|t: SubTrack| track_order(t))(sorted[j]),
        ));
    }
}

/// Law: the sorted library lists files by their lowercased names.
pub proof fn law_media_sorted(files: Seq<MediaFile>, sorted: Seq<MediaFile>)
    requires
        stably_sorted(files, sorted, |f: MediaFile| media_order(f)),
    ensures
        sorted.len() == files.len(),
        forall|i: int, j: int|
            0 <= i < j < sorted.len() ==> text_le(
                lowercase_of((#[trigger] sorted[i]).filename@),
                lowercase_of((#[trigger] sorted[j]).filename@),
            ),
{
    lemma_sorted_keys(files, sorted, |f: MediaFile| media_order(f));
    assert forall|i: int, j: int| 0 <= i < j < sorted.len() implies text_le(
        lowercase_of((#[trigger] sorted[i]).filename@),
        lowercase_of((#[trigger] sorted[j]).filename@),
    ) by {
        assert(key_le(
            (|f: MediaFile| media_order(f))(sorted[i]),
            (|f: MediaFile| media_order(f))(sorted[j]),
        ));
    }
}

/// Law: a file `<stem>.<ext>` is a video exactly when its extension, in any
/// letter case, is one of mp4, mkv, avi, mov, wmv, flv, webm, m4v, mpg, mpeg
/// and ts; its container is then the lowercased extension.
pub proof fn law_video_extensions(stem: Seq<char>, ext: Seq<char>)
    requires
        stem.len() > 0,
        forall|i: int| 0 <= i < ext.len() ==> ext[i] != '.',
    ensures
        ({
            let e = lowercase_of(ext);
            let known = e == "mp4"@ || e == "mkv"@ || e == "avi"@ || e == "mov"@ || e == "wmv"@
                || e == "flv"@ || e == "webm"@ || e == "m4v"@ || e == "mpg"@ || e == "mpeg"@ || e
                == "ts"@;
            &&& known ==> video_container_of(stem + seq!['.'] + ext) == Some(e)
            &&& !known ==> video_container_of(stem + seq!['.'] + ext) is None
        }),
{
    let name = stem + seq!['.'] + ext;
    if name == seq!['.', '.'] {
        assert(ext.len() == 0);
        assert(ext =~= Seq::<char>::empty());
        assert(is_ascii_text(ext));
        assert(lowercase_of(ext) =~= Seq::<char>::empty());
        lemma_extension_literals();
    } else {
        lemma_extension_after(stem, ext);
    }
}

proof fn lemma_extension_literals()
    ensures
        "mp4"@.len() > 0,
        "mkv"@.len() > 0,
        "avi"@.len() > 0,
        "mov"@.len() > 0,
        "wmv"@.len() > 0,
        "flv"@.len() > 0,
        "webm"@.len() > 0,
        "m4v"@.len() > 0,
        "mpg"@.len() > 0,
        "mpeg"@.len() > 0,
        "ts"@.len() > 0,
        "srt"@.len() > 0,
        "vtt"@.len() > 0,
        "ass"@.len() > 0,
        "ssa"@.len() > 0,
        "sub"@.len() > 0,
        "idx"@.len() > 0,
{
    reveal_strlit("mp4");
    reveal_strlit("mkv");
    reveal_strlit("avi");
    reveal_strlit("mov");
    reveal_strlit("wmv");
    reveal_strlit("flv");
    reveal_strlit("webm");
    reveal_strlit("m4v");
    reveal_strlit("mpg");
    reveal_strlit("mpeg");
    reveal_strlit("ts");
    reveal_strlit("srt");
    reveal_strlit("vtt");
    reveal_strlit("ass");
    reveal_strlit("ssa");
    reveal_strlit("sub");
    reveal_strlit("idx");
}

/// Law: a file `<stem>.<lang>.<ext>` beside a video with that stem (ASCII
/// names) is one of its subtitle tracks exactly when its extension, in any
/// letter case, is one of srt, vtt, ass, ssa, sub and idx; the track's format
/// is then the lowercased extension and its path the file's served path.
/// With another extension it is no track, wherever it lies.
pub proof fn law_subtitle_extensions(
    stem: Seq<char>,
    lang: Seq<char>,
    ext: Seq<char>,
    rel_path: Seq<char>,
    source: Seq<char>,
    in_subs_dir: bool,
)
    requires
        is_ascii_text(stem),
        is_ascii_text(lang),
        is_ascii_text(ext),
        forall|i: int| 0 <= i < ext.len() ==> ext[i] != '.',
    ensures
        ({
            let name = stem + seq!['.'] + lang + seq!['.'] + ext;
            let e = lowercase_of(ext);
            let known = e == "srt"@ || e == "vtt"@ || e == "ass"@ || e == "ssa"@ || e == "sub"@ || e
                == "idx"@;
            &&& known ==> (subtitle_track_of(name, rel_path, source, stem, false) matches Some(t) && t.format
                == e && t.path == served_path(source, rel_path))
            &&& !known ==> subtitle_track_of(name, rel_path, source, stem, in_subs_dir) is None
        }),
{
    let a = stem + seq!['.'] + lang;
    let name = a + seq!['.'] + ext;
    assert(stem + seq!['.'] + lang + seq!['.'] + ext == name);
    lemma_extension_literals();
    if name == seq!['.', '.'] {
        assert(ext =~= Seq::<char>::empty());
        assert(lowercase_of(ext) =~= Seq::<char>::empty());
    } else {
        lemma_extension_after(a, ext);
        assert(is_ascii_text(name)) by {
            assert forall|i: int| 0 <= i < name.len() implies (#[trigger] name[i] as u32) < 128 by {
                if i < stem.len() {
                    assert(name[i] == stem[i]);
                } else if i == stem.len() {
                    assert(name[i] == '.');
                } else if i < a.len() {
                    assert(name[i] == lang[i - stem.len() - 1]);
                } else if i == a.len() {
                    assert(name[i] == '.');
                } else {
                    assert(name[i] == ext[i - a.len() - 1]);
                }
            }
        }
        let ln = lowercase_of(name);
        let ls = lowercase_of(stem);
        assert(ln.subrange(0, ls.len() as int) =~= ls);
        assert(starts_with(ln, ls));
    }
}

} // verus!
