use pizerarr::text::{
    byte_prefix_chars, chars_of, decimal_chars, hex_lower_chars, lines, pad_left_chars,
    parse_unsigned_chars, replace_chars, split_chars, splitn_chars, strip_tag_chars, trim_chars,
    trim_start_chars, white, contains_exec, starts_with_exec,
};

fn cs(s: &str) -> Vec<char> {
    s.chars().collect()
}

fn st(v: &[char]) -> String {
    v.iter().collect()
}

fn samples() -> Vec<&'static str> {
    vec![
        "",
        "a",
        "\n",
        "a\n",
        "a\r\n",
        "a\r",
        "a\nb",
        "a\n\nb\n",
        "\r\n\r\n",
        "x\ry\r\nz",
        " \t lead and trail \u{3000}\u{85}",
        "one,two,,three,",
        ",,,",
        "h\u{e9}llo w\u{f6}rld, \u{1F600}!",
        "00:00:01,000 --> 00:00:02,500",
        "{\\an8}{\\b1}bold{\\b0} text {unterminated",
        "<p>para</p> <b>bold</b> > < >",
    ]
}

#[test]
fn whitespace_matches_std_for_every_char() {
    for u in 0u32..=0x10FFFF {
        if let Some(c) = char::from_u32(u) {
            assert_eq!(white(c), c.is_whitespace(), "char {:x}", u);
        }
    }
}

#[test]
fn lines_match_std() {
    for s in samples() {
        let got: Vec<String> = lines(&cs(s)).iter().map(|l| st(l)).collect();
        let want: Vec<String> = s.lines().map(|l| l.to_string()).collect();
        assert_eq!(got, want, "input {:?}", s);
    }
}

#[test]
fn split_and_splitn_match_std() {
    for s in samples() {
        for c in [',', '\n', ':', '.'] {
            let got: Vec<String> = split_chars(&cs(s), c).iter().map(|p| st(p)).collect();
            let want: Vec<String> = s.split(c).map(|p| p.to_string()).collect();
            assert_eq!(got, want, "split {:?} on {:?}", s, c);
            for n in 1..5usize {
                let got: Vec<String> = splitn_chars(&cs(s), c, n).iter().map(|p| st(p)).collect();
                let want: Vec<String> = s.splitn(n, c).map(|p| p.to_string()).collect();
                assert_eq!(got, want, "splitn {} {:?} on {:?}", n, s, c);
            }
        }
    }
}

#[test]
fn trim_matches_std() {
    for s in samples() {
        assert_eq!(st(&trim_chars(&cs(s))), s.trim(), "input {:?}", s);
        assert_eq!(st(&trim_start_chars(&cs(s), ',')), s.trim_start_matches(','));
    }
}

#[test]
fn replace_contains_starts_with_match_std() {
    for s in samples() {
        for (pat, to) in [(",", "."), ("--", "="), ("{\\an8}", ""), ("a", "aa"), ("\n", "\\n")] {
            assert_eq!(st(&replace_chars(&cs(s), &cs(pat), &cs(to))), s.replace(pat, to));
            assert_eq!(contains_exec(&cs(s), &cs(pat)), s.contains(pat));
            assert_eq!(starts_with_exec(&cs(s), &cs(pat)), s.starts_with(pat));
        }
        assert!(contains_exec(&cs(s), &cs("")));
    }
}

#[test]
fn strip_tags_removes_marked_runs() {
    assert_eq!(st(&strip_tag_chars(&cs("{\\b1}Hi{\\b0} there"), '{', '}')), "Hi there");
    assert_eq!(st(&strip_tag_chars(&cs("a}b{c"), '{', '}')), "ab");
    let once = strip_tag_chars(&cs("<i>x</i> > y <z"), '<', '>');
    assert_eq!(st(&once), "x  y ");
    assert_eq!(strip_tag_chars(&once, '<', '>'), once);
}

#[test]
fn decimal_and_padding_match_std_formatting() {
    for n in [0u64, 7, 10, 99, 100, 4294967295, u64::MAX] {
        assert_eq!(st(&decimal_chars(n as u128)), n.to_string());
        assert_eq!(st(&pad_left_chars(&decimal_chars(n as u128), 3, '0')), format!("{:03}", n));
    }
    for s in ["", "1", "12", "123", "\u{e9}"] {
        assert_eq!(st(&pad_left_chars(&cs(s), 2, '0')), format!("{:0>2}", s));
    }
}

#[test]
fn parse_matches_std() {
    let inputs = [
        "", "+", "-", "0", "+7", "-7", "007", "42", " 42", "4x", "4294967295", "4294967296",
        "18446744073709551615", "18446744073709551616", "99999999999999999999999", "\u{663}",
    ];
    for s in inputs {
        assert_eq!(parse_unsigned_chars(&cs(s), u64::MAX), s.parse::<u64>().ok(), "u64 {:?}", s);
        assert_eq!(
            parse_unsigned_chars(&cs(s), u32::MAX as u64),
            s.parse::<u32>().ok().map(|v| v as u64),
            "u32 {:?}",
            s
        );
    }
}

#[test]
fn byte_prefix_matches_str_get() {
    for s in ["", "abc", "abcd", "2020-01-01", "\u{e9}t\u{e9}", "a\u{e9}bc", "\u{1F600}x"] {
        let got = byte_prefix_chars(&cs(s), 4).map(|v| st(&v));
        let want = s.get(..4).map(|x| x.to_string());
        assert_eq!(got, want, "input {:?}", s);
    }
}

#[test]
fn hex_matches_std_formatting() {
    let bytes: Vec<u8> = (0u8..=255).collect();
    let want: String = bytes.iter().map(|b| format!("{:02x}", b)).collect();
    assert_eq!(st(&hex_lower_chars(&bytes)), want);
}

#[test]
fn chars_of_keeps_every_character() {
    assert_eq!(chars_of("h\u{e9}\u{1F600}"), vec!['h', '\u{e9}', '\u{1F600}']);
}
