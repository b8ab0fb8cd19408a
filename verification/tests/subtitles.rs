use pizerarr::subtitles::{ass_time_to_vtt, ass_to_vtt, srt_to_vtt, strip_ass_tags, subtitle_as_vtt};

/// The SRT conversion written directly with std's string methods.
fn std_srt_to_vtt(srt: &str) -> String {
    let mut vtt = String::from("WEBVTT\n\n");
    for line in srt.lines() {
        if line.contains(" --> ") {
            vtt.push_str(&line.replace(',', "."));
        } else {
            vtt.push_str(line);
        }
        vtt.push('\n');
    }
    vtt
}

fn std_time(t: &str) -> String {
    let parts: Vec<&str> = t.split(':').collect();
    if parts.len() == 3 {
        let sec_parts: Vec<&str> = parts[2].split('.').collect();
        let s = sec_parts.first().unwrap_or(&"00");
        let cs = sec_parts.get(1).unwrap_or(&"00");
        let ms: u32 = cs.parse::<u32>().unwrap_or(0).wrapping_mul(10);
        format!("{:0>2}:{:0>2}:{:0>2}.{:03}", parts[0], parts[1], s, ms)
    } else {
        t.to_string()
    }
}

fn std_strip(s: &str) -> String {
    let mut out = String::new();
    let mut in_tag = false;
    for c in s.chars() {
        if c == '{' {
            in_tag = true;
        } else if c == '}' {
            in_tag = false;
        } else if !in_tag {
            out.push(c);
        }
    }
    out
}

fn std_ass_to_vtt(ass: &str) -> String {
    let mut vtt = String::from("WEBVTT\n\n");
    let mut count = 1;
    for line in ass.lines() {
        if !line.starts_with("Dialogue:") {
            continue;
        }
        let parts: Vec<&str> = line.splitn(10, ',').collect();
        if parts.len() < 10 {
            continue;
        }
        let start = std_time(parts[1].trim());
        let end = std_time(parts[2].trim());
        let text = parts[9]
            .replace("\\N", "\n")
            .replace("\\n", "\n")
            .replace("{\\an8}", "")
            .replace("{\\pos(", "");
        let text = std_strip(&text);
        if text.trim().is_empty() {
            continue;
        }
        vtt.push_str(&format!("{}\n{} --> {}\n{}\n\n", count, start, end, text));
        count += 1;
    }
    vtt
}

const SRT: &str = "1\r\n00:00:01,000 --> 00:00:02,500\r\nHello, world\r\n\r\n2\r\n00:01:00,250 --> 00:01:03,000\r\nSecond, line\r\n";

const ASS: &str = "[Script Info]\nTitle: x\n\n[Events]\nFormat: Layer, Start, End, Style, Name, MarginL, MarginR, MarginV, Effect, Text\nDialogue: 0,0:00:01.50,0:00:03.00,Default,,0,0,0,,{\\an8}Top line\\NSecond, part\nDialogue: 0,0:00:04.00,0:00:05.00,Default,,0,0,0,,{\\i1}   {\\i0}\nDialogue: 0,0:00:06.05,0:00:07.9,Default,,0,0,0,,{\\pos(10,20)}Moved {\\b1}bold{\\b0}\\nend\nDialogue: short,line\nComment: 0,0:00:08.00,0:00:09.00,Default,,0,0,0,,ignored\n";

#[test]
fn srt_becomes_vtt_with_dotted_times() {
    assert_eq!(
        srt_to_vtt(SRT),
        "WEBVTT\n\n1\n00:00:01.000 --> 00:00:02.500\nHello, world\n\n2\n00:01:00.250 --> 00:01:03.000\nSecond, line\n"
    );
    for s in [SRT, "", "no timing, here", "a --> b,c\n\n", "x\r"] {
        assert_eq!(srt_to_vtt(s), std_srt_to_vtt(s));
    }
}

#[test]
fn ass_times_become_vtt_times() {
    assert_eq!(ass_time_to_vtt("0:01:02.50"), "00:01:02.500");
    assert_eq!(ass_time_to_vtt("1:2:3"), "01:02:03.000");
    assert_eq!(ass_time_to_vtt("0:00:00.5"), "00:00:00.050");
    assert_eq!(ass_time_to_vtt("10:20:30.xx"), "10:20:30.000");
    assert_eq!(ass_time_to_vtt("garbage"), "garbage");
    assert_eq!(ass_time_to_vtt("1:2"), "1:2");
    for t in ["0:00:00.429496730", "123:4:5.6.7", "::", "0:00:01.99"] {
        assert_eq!(ass_time_to_vtt(t), std_time(t));
    }
}

#[test]
fn ass_dialogue_becomes_numbered_cues() {
    assert_eq!(
        ass_to_vtt(ASS),
        "WEBVTT\n\n1\n00:00:01.500 --> 00:00:03.000\nTop line\nSecond, part\n\n2\n00:00:06.050 --> 00:00:07.090\n10,20)Moved bold\nend\n\n"
    );
    assert_eq!(ass_to_vtt(ASS), std_ass_to_vtt(ASS));
    assert_eq!(ass_to_vtt(""), "WEBVTT\n\n");
}

#[test]
fn ass_tags_are_stripped_once_and_for_all() {
    let once = strip_ass_tags("{\\b1}Hi{\\b0} there}{");
    assert_eq!(once, "Hi there");
    assert_eq!(strip_ass_tags(&once), once);
}

#[test]
fn subtitle_files_are_converted_by_extension() {
    assert_eq!(subtitle_as_vtt("WEBVTT\n\nx\n".to_string(), "a/b.VTT"), "WEBVTT\n\nx\n");
    assert_eq!(subtitle_as_vtt(ASS.to_string(), "dl/show.SSA"), std_ass_to_vtt(ASS));
    assert_eq!(subtitle_as_vtt(SRT.to_string(), "movie.srt"), std_srt_to_vtt(SRT));
    assert_eq!(subtitle_as_vtt(SRT.to_string(), "movie"), std_srt_to_vtt(SRT));
}
