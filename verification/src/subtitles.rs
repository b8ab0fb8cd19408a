//! Conversion of SRT and ASS/SSA subtitles to WebVTT.

use vstd::prelude::*;
use crate::text::{
    push_all, lemma_replace_char_removes,
    chars_of, contains, free_of, is_text, law_strip_tags, contains_exec, decimal, decimal_chars, lines, lines_of, pad_left,
    pad_left_chars, parse_unsigned, parse_unsigned_chars, replace_all, replace_chars, split_char,
    split_chars, splitn_char, lemma_split_nonempty, splitn_chars, starts_with, starts_with_exec, strip_tag_chars,
    strip_tags, trim, trim_chars, views,
};
use crate::trusted::{is_ascii_text, lowercase, lowercase_of, string_of};
use crate::paths::{extension_of, file_name, file_name_of, split_extension};

verus! {

/// The header every WebVTT document starts with.
pub open spec fn vtt_header() -> Seq<char> {
    "WEBVTT\n\n"@
}

/// One SRT line in WebVTT: a timing line (one holding ` --> `) gets `.` in
/// place of every `,`; any other line stays as it is.
pub open spec fn vtt_line_from_srt(line: Seq<char>) -> Seq<char> {
    if contains(line, " --> "@) {
        replace_all(line, seq![','], seq!['.'])
    } else {
        line
    }
}

/// The converted lines, each followed by a newline.
pub open spec fn vtt_lines_from_srt(ls: Seq<Seq<char>>) -> Seq<char>
    decreases ls.len(),
{
    if ls.len() == 0 {
        seq![]
    } else {
        vtt_lines_from_srt(ls.drop_last()) + vtt_line_from_srt(ls.last()) + seq!['\n']
    }
}

/// The WebVTT document for an SRT text.
pub open spec fn vtt_from_srt(srt: Seq<char>) -> Seq<char> {
    vtt_header() + vtt_lines_from_srt(lines_of(srt))
}

/// Converts SRT subtitles to WebVTT: the header, then every line of the input
/// with the millisecond commas of timing lines turned into dots.
pub fn srt_to_vtt(srt: &str) -> (vtt: String)
    ensures
        vtt@ == vtt_from_srt(srt@),
{
    let src = chars_of(srt);
    let ls = lines(src.as_slice());
    let mut out = chars_of("WEBVTT\n\n");
    let arrow = chars_of(" --> ");
    let comma = chars_of(",");
    let dot = chars_of(".");
    proof {
        reveal_strlit(",");
        reveal_strlit(".");
        assert(comma@ =~= seq![',']);
        assert(dot@ =~= seq!['.']);
    }
    let mut i: usize = 0;
    while i < ls.len()
        invariant
            i <= ls@.len(),
            views(ls@) == lines_of(srt@),
            arrow@ == " --> "@,
            comma@ == seq![','],
            dot@ == seq!['.'],
            out@ == vtt_header() + vtt_lines_from_srt(views(ls@).take(i as int)),
        decreases ls@.len() - i,
    {
        let line = &ls[i];
        proof {
            assert(views(ls@)[i as int] == line@);
        }
        if contains_exec(line.as_slice(), arrow.as_slice()) {
            let fixed = replace_chars(line.as_slice(), comma.as_slice(), dot.as_slice());
            push_all(&mut out, fixed.as_slice());
        } else {
            push_all(&mut out, line.as_slice());
        }
        out.push('\n');
        proof {
            let t = views(ls@).take(i + 1);
            assert(t.drop_last() =~= views(ls@).take(i as int));
            assert(t.last() == line@);
            assert(out@ =~= vtt_header() + vtt_lines_from_srt(t));
        }
        i += 1;
    }
    proof {
        assert(views(ls@).take(i as int) =~= views(ls@));
    }
    string_of(out.as_slice())
}

/// An ASS override block removed: every run from `{` through the next `}`.
pub open spec fn without_ass_tags(s: Seq<char>) -> Seq<char> {
    strip_tags(s, '{', '}', false)
}

/// Removes ASS override tags (`{...}`) from a line of dialogue text.
pub fn strip_ass_tags(s: &str) -> (r: String)
    ensures
        r@ == without_ass_tags(s@),
{
    let v = chars_of(s);
    let r = strip_tag_chars(v.as_slice(), '{', '}');
    string_of(r.as_slice())
}

/// The milliseconds for an ASS centisecond field: its `u32` value (0 when it
/// does not parse) times ten, wrapping at 2^32 as unchecked `u32`
/// arithmetic does in a release build.
pub open spec fn millis_of_centis(cs: Seq<char>) -> nat {
    let n = match parse_unsigned(cs, 0xffff_ffff) {
        Some(v) => v,
        None => 0,
    };
    (n * 10) % 0x1_0000_0000
}

/// An ASS time `H:MM:SS.CC` as a WebVTT time `HH:MM:SS.mmm`: hours, minutes
/// and seconds padded with zeros to two characters, the centiseconds turned
/// into milliseconds padded to three digits. Text that does not have exactly
/// three `:`-separated fields is kept as it is.
pub open spec fn vtt_time(t: Seq<char>) -> Seq<char> {
    let parts = split_char(t, ':');
    if parts.len() == 3 {
        let sec = split_char(parts[2], '.');
        let cs = if sec.len() > 1 {
            sec[1]
        } else {
            "00"@
        };
        pad_left(parts[0], 2, '0') + seq![':'] + pad_left(parts[1], 2, '0') + seq![':'] + pad_left(
            sec[0],
            2,
            '0',
        ) + seq!['.'] + pad_left(decimal(millis_of_centis(cs)), 3, '0')
    } else {
        t
    }
}

fn vtt_time_chars(t: &[char]) -> (r: Vec<char>)
    ensures
        r@ == vtt_time(t@),
{
    let parts = split_chars(t, ':');
    if parts.len() != 3 {
        return crate::text::copy_range(t, 0, t.len());
    }
    proof {
        assert(t@.subrange(0, t@.len() as int) =~= t@);
        assert(views(parts@)[0] == parts@[0]@);
        assert(views(parts@)[1] == parts@[1]@);
        assert(views(parts@)[2] == parts@[2]@);
    }
    let sec = split_chars(parts[2].as_slice(), '.');
    proof {
        lemma_split_nonempty(parts@[2]@, '.');
        assert(views(sec@)[0] == sec@[0]@);
    }
    let default_cs = chars_of("00");
    let cs: &Vec<char> = if sec.len() > 1 {
        proof {
            assert(views(sec@)[1] == sec@[1]@);
        }
        &sec[1]
    } else {
        &default_cs
    };
    let n: u64 = match parse_unsigned_chars(cs.as_slice(), 0xffff_ffff) {
        Some(v) => v,
        None => 0,
    };
    let ms: u64 = (n * 10) % 0x1_0000_0000;
    let mut out = pad_left_chars(parts[0].as_slice(), 2, '0');
    out.push(':');
    push_all(&mut out, pad_left_chars(parts[1].as_slice(), 2, '0').as_slice());
    out.push(':');
    push_all(&mut out, pad_left_chars(sec[0].as_slice(), 2, '0').as_slice());
    out.push('.');
    push_all(&mut out, pad_left_chars(decimal_chars(ms as u128).as_slice(), 3, '0').as_slice());
    proof {
        assert(ms == millis_of_centis(cs@));
        assert(out@ =~= vtt_time(t@));
    }
    out
}

/// Converts an ASS timestamp (`H:MM:SS.CC`) to a WebVTT one (`HH:MM:SS.mmm`).
pub fn ass_time_to_vtt(t: &str) -> (r: String)
    ensures
        r@ == vtt_time(t@),
{
    let v = chars_of(t);
    let r = vtt_time_chars(v.as_slice());
    string_of(r.as_slice())
}

/// The text of a dialogue line as a cue: the `\N` and `\n` line breaks become
/// newlines, the `{\an8}` tags and `{\pos(` openers disappear, and what is left
/// loses every `{...}` override block.
pub open spec fn cue_text(raw: Seq<char>) -> Seq<char> {
    strip_tags(
        replace_all(
            replace_all(
                replace_all(replace_all(raw, "\\N"@, "\n"@), "\\n"@, "\n"@),
                "{\\an8}"@,
                seq![],
            ),
            "{\\pos("@,
            seq![],
        ),
        '{',
        '}',
        false,
    )
}

/// A cue: start time, end time and text.
pub struct Cue {
    pub start: Seq<char>,
    pub end: Seq<char>,
    pub text: Seq<char>,
}

/// The cue that an ASS line gives: only `Dialogue:` lines with all ten
/// comma-separated fields whose text is not blank make one.
pub open spec fn ass_cue(line: Seq<char>) -> Option<Cue> {
    if !starts_with(line, "Dialogue:"@) {
        None
    } else {
        let parts = splitn_char(line, ',', 10);
        if parts.len() < 10 {
            None
        } else {
            let text = cue_text(parts[9]);
            if trim(text).len() == 0 {
                None
            } else {
                Some(Cue { start: vtt_time(trim(parts[1])), end: vtt_time(trim(parts[2])), text })
            }
        }
    }
}

/// The cues of a sequence of ASS lines, in order.
pub open spec fn ass_cues(ls: Seq<Seq<char>>) -> Seq<Cue>
    decreases ls.len(),
{
    if ls.len() == 0 {
        seq![]
    } else {
        let prev = ass_cues(ls.drop_last());
        match ass_cue(ls.last()) {
            Some(c) => prev.push(c),
            None => prev,
        }
    }
}

/// Cues in WebVTT: each numbered from 1, with its timing line, its text and a
/// blank line.
pub open spec fn render_cues(cues: Seq<Cue>) -> Seq<char>
    decreases cues.len(),
{
    if cues.len() == 0 {
        seq![]
    } else {
        let c = cues.last();
        render_cues(cues.drop_last()) + decimal(cues.len()) + seq!['\n'] + c.start + " --> "@
            + c.end + seq!['\n'] + c.text + "\n\n"@
    }
}

/// The WebVTT document for an ASS/SSA text.
pub open spec fn vtt_from_ass(ass: Seq<char>) -> Seq<char> {
    vtt_header() + render_cues(ass_cues(lines_of(ass)))
}

fn cue_text_chars(raw: &[char]) -> (r: Vec<char>)
    ensures
        r@ == cue_text(raw@),
{
    let br_upper = chars_of("\\N");
    let br_lower = chars_of("\\n");
    let nl = chars_of("\n");
    let an8 = chars_of("{\\an8}");
    let pos = chars_of("{\\pos(");
    let empty: Vec<char> = Vec::new();
    proof {
        reveal_strlit("\\N");
        reveal_strlit("\\n");
        reveal_strlit("{\\an8}");
        reveal_strlit("{\\pos(");
    }
    let a = replace_chars(raw, br_upper.as_slice(), nl.as_slice());
    let b = replace_chars(a.as_slice(), br_lower.as_slice(), nl.as_slice());
    let c = replace_chars(b.as_slice(), an8.as_slice(), empty.as_slice());
    let d = replace_chars(c.as_slice(), pos.as_slice(), empty.as_slice());
    proof {
        assert(empty@ =~= seq![]);
    }
    strip_tag_chars(d.as_slice(), '{', '}')
}

/// Converts ASS/SSA subtitles to WebVTT: every dialogue line with non-blank
/// text becomes a numbered cue.
pub fn ass_to_vtt(ass: &str) -> (vtt: String)
    ensures
        vtt@ == vtt_from_ass(ass@),
{
    let src = chars_of(ass);
    let ls = lines(src.as_slice());
    let mut out = chars_of("WEBVTT\n\n");
    let dialogue = chars_of("Dialogue:");
    let arrow = chars_of(" --> ");
    let nl2 = chars_of("\n\n");
    let mut count: u128 = 1;
    let mut i: usize = 0;
    while i < ls.len()
        invariant
            i <= ls@.len(),
            views(ls@) == lines_of(ass@),
            dialogue@ == "Dialogue:"@,
            arrow@ == " --> "@,
            nl2@ == "\n\n"@,
            count == ass_cues(views(ls@).take(i as int)).len() + 1,
            count <= i + 1,
            out@ == vtt_header() + render_cues(ass_cues(views(ls@).take(i as int))),
        decreases ls@.len() - i,
    {
        let line = &ls[i];
        let ghost t = views(ls@).take(i + 1);
        proof {
            assert(views(ls@)[i as int] == line@);
            assert(t.drop_last() =~= views(ls@).take(i as int));
            assert(t.last() == line@);
        }
        if !starts_with_exec(line.as_slice(), dialogue.as_slice()) {
            i += 1;
            continue;
        }
        let parts = splitn_chars(line.as_slice(), ',', 10);
        if parts.len() < 10 {
            i += 1;
            continue;
        }
        proof {
            assert(views(parts@)[1] == parts@[1]@);
            assert(views(parts@)[2] == parts@[2]@);
            assert(views(parts@)[9] == parts@[9]@);
        }
        let start = vtt_time_chars(trim_chars(parts[1].as_slice()).as_slice());
        let end = vtt_time_chars(trim_chars(parts[2].as_slice()).as_slice());
        let text = cue_text_chars(parts[9].as_slice());
        let trimmed = trim_chars(text.as_slice());
        if trimmed.len() == 0 {
            i += 1;
            continue;
        }
        let ghost prev = out@;
        push_all(&mut out, decimal_chars(count).as_slice());
        out.push('\n');
        push_all(&mut out, start.as_slice());
        push_all(&mut out, arrow.as_slice());
        push_all(&mut out, end.as_slice());
        out.push('\n');
        push_all(&mut out, text.as_slice());
        push_all(&mut out, nl2.as_slice());
        proof {
            let cues = ass_cues(t);
            assert(cues == ass_cues(views(ls@).take(i as int)).push(
                Cue { start: start@, end: end@, text: text@ },
            ));
            assert(cues.drop_last() =~= ass_cues(views(ls@).take(i as int)));
            assert(out@ =~= vtt_header() + render_cues(cues));
        }
        count += 1;
        i += 1;
    }
    proof {
        assert(views(ls@).take(i as int) =~= views(ls@));
    }
    string_of(out.as_slice())
}

/// The WebVTT form of a subtitle file, by the lowercased extension of its
/// path: WebVTT stays as it is, ASS and SSA are converted as ASS, anything
/// else as SRT.
pub open spec fn vtt_for_file(content: Seq<char>, path: Seq<char>) -> Seq<char> {
    let ext = match file_name_of(path) {
        Some(n) => match extension_of(n) {
            Some(e) => lowercase_of(e),
            None => seq![],
        },
        None => seq![],
    };
    if ext == "vtt"@ {
        content
    } else if ext == "ass"@ || ext == "ssa"@ {
        vtt_from_ass(content)
    } else {
        vtt_from_srt(content)
    }
}

/// Serves a subtitle file as WebVTT, converting by the file's extension.
pub fn subtitle_as_vtt(content: String, path: &str) -> (r: String)
    ensures
        r@ == vtt_for_file(content@, path@),
{
    let ext: Vec<char> = match file_name(chars_of(path).as_slice()) {
        Some(n) => match split_extension(n.as_slice()).1 {
            Some(e) => {
                let s = string_of(e.as_slice());
                chars_of(lowercase(s.as_str()).as_str())
            },
            None => Vec::new(),
        },
        None => Vec::new(),
    };
    proof {
        if ext@.len() == 0 {
            assert(ext@ =~= Seq::<char>::empty());
        }
    }
    if is_text(ext.as_slice(), "vtt") {
        content
    } else if is_text(ext.as_slice(), "ass") || is_text(ext.as_slice(), "ssa") {
        ass_to_vtt(content.as_str())
    } else {
        srt_to_vtt(content.as_str())
    }
}

/// Law: stripping ASS override tags leaves no `{` or `}` and never lengthens
/// the text; stripping again changes nothing.
pub proof fn law_strip_ass_tags(s: Seq<char>)
    ensures
        free_of(without_ass_tags(s), '{', '}'),
        without_ass_tags(s).len() <= s.len(),
        without_ass_tags(without_ass_tags(s)) == without_ass_tags(s),
{
    law_strip_tags(s, '{', '}');
}

/// Law: every converted file starts with the WebVTT header, whether it was
/// SRT or ASS.
pub proof fn law_vtt_header(srt: Seq<char>, ass: Seq<char>)
    ensures
        starts_with(vtt_from_srt(srt), vtt_header()),
        starts_with(vtt_from_ass(ass), vtt_header()),
{
    let a = vtt_from_srt(srt);
    let b = vtt_from_ass(ass);
    assert(a.subrange(0, vtt_header().len() as int) =~= vtt_header());
    assert(b.subrange(0, vtt_header().len() as int) =~= vtt_header());
}

/// Law: SRT timing lines come out with dots for milliseconds, no comma left;
/// other lines come out unchanged.
pub proof fn law_srt_timing_uses_dots(line: Seq<char>)
    ensures
        contains(line, " --> "@) ==> forall|i: int|
            0 <= i < vtt_line_from_srt(line).len() ==> #[trigger] vtt_line_from_srt(line)[i] != ',',
        !contains(line, " --> "@) ==> vtt_line_from_srt(line) == line,
{
    lemma_replace_char_removes(line, ',', '.');
}

/// Law: a subtitle file is served by its extension, in any letter case: a
/// `.vtt` file as it is, a `.ass` or `.ssa` file through the ASS conversion,
/// and a file with any other extension, or with none, through the SRT
/// conversion.
pub proof fn law_served_by_extension(content: Seq<char>, path: Seq<char>)
    ensures
        ({
            let e = match file_name_of(path) {
                Some(n) => match extension_of(n) {
                    Some(x) => Some(lowercase_of(x)),
                    None => None,
                },
                None => None,
            };
            &&& e == Some("vtt"@) ==> vtt_for_file(content, path) == content
            &&& (e == Some("ass"@) || e == Some("ssa"@)) ==> vtt_for_file(content, path) == vtt_from_ass(
                content,
            )
            &&& !(e == Some("vtt"@) || e == Some("ass"@) || e == Some("ssa"@)) ==> vtt_for_file(
                content,
                path,
            ) == vtt_from_srt(content)
        }),
{
    reveal_strlit("vtt");
    reveal_strlit("ass");
    reveal_strlit("ssa");
    assert("vtt"@.len() > 0 && "ass"@[0] != "vtt"@[0] && "ssa"@[0] != "vtt"@[0]);
}

/// Law: a file `<stem>.<ext>` (no directory, ASCII extension) whose
/// extension is `ass` or `ssa` in any letter case is served through the ASS
/// conversion, whatever it holds.
pub proof fn law_ass_files_any_case(content: Seq<char>, stem: Seq<char>, ext: Seq<char>)
    requires
        stem.len() > 0,
        forall|i: int| 0 <= i < stem.len() ==> stem[i] != '/',
        forall|i: int| 0 <= i < ext.len() ==> ext[i] != '/' && ext[i] != '.',
        is_ascii_text(ext),
        lowercase_of(ext) == "ass"@ || lowercase_of(ext) == "ssa"@,
    ensures
        vtt_for_file(content, stem + seq!['.'] + ext) == vtt_from_ass(content),
{
    reveal_strlit("ass");
    reveal_strlit("ssa");
    let p = stem + seq!['.'] + ext;
    assert(lowercase_of(ext).len() == ext.len());
    assert(p.len() >= 5);
    crate::text::lemma_first_pos_unique(p, '/', p.len() as int);
    assert(split_char(p, '/') == seq![p]);
    assert(p != seq!['.'] && p != seq!['.', '.']);
    assert(file_name_of(p) == Some(p));
    crate::paths::lemma_extension_after(stem, ext);
    law_served_by_extension(content, p);
}

} // verus!
