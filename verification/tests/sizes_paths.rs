use pizerarr::paths::{file_name, join, split_extension, with_extension};
use pizerarr::sizes::{format_bytes, format_size};
use std::path::Path;

/// The size formatting written with floats, as a display of byte counts does.
fn float_size(bytes: u64) -> String {
    if bytes >= 1_073_741_824 {
        format!("{:.1} GB", bytes as f64 / 1_073_741_824.0)
    } else if bytes >= 1_048_576 {
        format!("{:.1} MB", bytes as f64 / 1_048_576.0)
    } else {
        format!("{} KB", bytes / 1024)
    }
}

fn cs(s: &str) -> Vec<char> {
    s.chars().collect()
}

fn st(v: &[char]) -> String {
    v.iter().collect()
}

#[test]
fn sizes_have_exact_expected_texts() {
    assert_eq!(format_size(0), "0 KB");
    assert_eq!(format_size(1023), "0 KB");
    assert_eq!(format_size(2048), "2 KB");
    assert_eq!(format_size(1_048_575), "1023 KB");
    assert_eq!(format_size(1_048_576), "1.0 MB");
    assert_eq!(format_size(734_003_200), "700.0 MB");
    assert_eq!(format_size(1_610_612_736), "1.5 GB");
    assert_eq!(format_size(1_073_741_824), "1.0 GB");
}

#[test]
fn sizes_round_halves_to_even_as_float_formatting_does() {
    // 1.25 GB and 1.75 GB are exact halves of a tenth.
    assert_eq!(format_size(1_342_177_280), "1.2 GB");
    assert_eq!(format_size(1_879_048_192), "1.8 GB");
    assert_eq!(format_size(1_342_177_280), float_size(1_342_177_280));
    assert_eq!(format_size(2_621_440), float_size(2_621_440));
}

#[test]
fn sizes_match_float_formatting() {
    let mut samples: Vec<u64> = vec![
        u64::MAX,
        u64::MAX - 1,
        (1u64 << 53) + 1,
        (1u64 << 60) + 12345,
        9_007_199_254_740_993,
        1_073_741_823,
        1_073_741_825,
        107_374_182,
        5_368_709_120,
        123_456_789_012_345,
    ];
    let mut x: u64 = 0x9E37_79B9_7F4A_7C15;
    for _ in 0..2000 {
        x ^= x << 13;
        x ^= x >> 7;
        x ^= x << 17;
        samples.push(x >> (x % 64));
    }
    for k in 0..64u32 {
        samples.push(1u64 << k);
        samples.push((1u64 << k) - 1);
        samples.push((1u64 << k) + (1u64 << k) / 20);
    }
    for b in samples {
        assert_eq!(format_size(b), float_size(b), "bytes {}", b);
    }
}

#[test]
fn byte_counts_given_as_text() {
    assert_eq!(format_bytes("1610612736"), "1.5 GB");
    assert_eq!(format_bytes("2048"), "2 KB");
    assert_eq!(format_bytes("abc"), "0 KB");
    assert_eq!(format_bytes(""), "0 KB");
    assert_eq!(format_bytes("-5"), "0 KB");
    assert_eq!(format_bytes("+1048576"), "1.0 MB");
    assert_eq!(format_bytes("18446744073709551616"), "0 KB");
    assert_eq!(format_bytes("18446744073709551615"), float_size(u64::MAX));
}

#[test]
fn file_names_match_std_path() {
    for p in [
        "", "/", "a", "a/", "a/b", "a/b/", "a/b/.", "a/b/..", "..", ".", "/x.mkv", "dir//f.srt",
        "dir/./", "a/b.c.d", ".hidden", "x/.hidden", "x/..", "Movie (2020)/Movie.mkv",
    ] {
        let got = file_name(&cs(p)).map(|v| st(&v));
        let want = Path::new(p).file_name().map(|s| s.to_string_lossy().to_string());
        assert_eq!(got, want, "path {:?}", p);
    }
}

#[test]
fn stems_and_extensions_match_std_path() {
    for n in [
        "movie.mkv", "movie", ".hidden", "a.b.c", "trailing.", "x..y", "..z", "é.srt",
        "archive.tar.gz", ".hidden.srt",
    ] {
        let (stem, ext) = split_extension(&cs(n));
        let p = Path::new(n);
        assert_eq!(
            Some(st(&stem)),
            p.file_stem().map(|s| s.to_string_lossy().to_string()),
            "stem of {:?}",
            n
        );
        assert_eq!(
            ext.map(|v| st(&v)),
            p.extension().map(|s| s.to_string_lossy().to_string()),
            "extension of {:?}",
            n
        );
    }
}

#[test]
fn joins_match_std_path() {
    for (a, b) in [
        ("/media", "hls"),
        ("/media/", "hls"),
        ("", "hls"),
        ("/media", "/abs/x"),
        ("/media", ""),
        ("rel", "a/b.mkv"),
        ("/dl", "Show/S01/e1.mkv"),
    ] {
        let got = st(&join(&cs(a), &cs(b)));
        let want = Path::new(a).join(b).to_string_lossy().to_string();
        assert_eq!(got, want, "join {:?} {:?}", a, b);
    }
}

#[test]
fn extensions_are_replaced_as_std_path_does() {
    for p in [
        "movie.mkv", "dir/movie.mkv", "/m/dir/Movie.Name.mp4", "noext", "dir/noext", "a/b/", "a/b/.",
        "a//b.c", "", "/", ".", "..", "a/..", ".hidden", "dir/.hidden", "x.", "dl/Show/e1.MKV", "a/./b.c",
    ] {
        for e in ["srt", ""] {
            let got = st(&with_extension(&cs(p), &cs(e)));
            let want = Path::new(p).with_extension(e).to_string_lossy().to_string();
            assert_eq!(got, want, "path {:?} ext {:?}", p, e);
        }
    }
}
