use pizerarr::search::{
    combine_results, eztv_results, eztv_search_url, piratebay_results, piratebay_search_url,
    x1337_results, x1337_search_url, yts_results, yts_search_url, EztvTorrent, PbResult,
    SearchResult, X1337Row, YtsMovie, YtsTorrent,
};

fn result(title: &str, seeds: u32, source: &str) -> SearchResult {
    SearchResult {
        title: title.to_string(),
        magnet: None,
        detail_url: None,
        seeds,
        leeches: 0,
        size: String::new(),
        source: source.to_string(),
    }
}

#[test]
fn search_urls_encode_the_query() {
    assert_eq!(
        yts_search_url("the matrix"),
        "https://yts.mx/api/v2/list_movies.json?query_term=the%20matrix&limit=20&sort_by=seeds"
    );
    assert_eq!(eztv_search_url("a&b"), "https://eztvx.to/api/get-torrents?limit=20&search=a%26b");
    assert_eq!(x1337_search_url("caf\u{e9}"), "https://1337x.to/sort-search/caf%C3%A9/seeders/desc/1/");
    assert_eq!(piratebay_search_url("x-y_z.~"), "https://apibay.org/q.php?q=x-y_z.~");
    assert_eq!(piratebay_search_url(""), "https://apibay.org/q.php?q=");
}

#[test]
fn yts_movies_give_one_result_per_torrent() {
    let movies = vec![
        YtsMovie {
            title_long: "The Matrix (1999)".to_string(),
            torrents: vec![
                YtsTorrent { hash: "ABC".into(), quality: "720p".into(), size: "1.1 GB".into(), seeds: 10, peers: 2 },
                YtsTorrent { hash: "DEF".into(), quality: "1080p".into(), size: "2.2 GB".into(), seeds: 20, peers: 3 },
            ],
        },
        YtsMovie { title_long: "Empty".to_string(), torrents: vec![] },
        YtsMovie {
            title_long: "Up".to_string(),
            torrents: vec![YtsTorrent { hash: "0F".into(), quality: "2160p".into(), size: "9 GB".into(), seeds: 1, peers: 0 }],
        },
    ];
    let r = yts_results(movies);
    assert_eq!(r.len(), 3);
    assert_eq!(r[0].title, "The Matrix (1999) [720p]");
    assert_eq!(
        r[0].magnet.as_deref(),
        Some("magnet:?xt=urn:btih:ABC&dn=The%20Matrix%20%281999%29&tr=udp://open.stealth.si:80/announce&tr=udp://tracker.opentrackr.org:1337/announce&tr=udp://exodus.desync.com:6969/announce")
    );
    assert_eq!(r[0].seeds, 10);
    assert_eq!(r[0].leeches, 2);
    assert_eq!(r[0].size, "1.1 GB");
    assert_eq!(r[0].source, "YTS");
    assert_eq!(r[0].detail_url, None);
    assert_eq!(r[1].title, "The Matrix (1999) [1080p]");
    assert_eq!(r[2].title, "Up [2160p]");
    assert!(r[2].magnet.as_deref().unwrap().starts_with("magnet:?xt=urn:btih:0F&dn=Up&tr="));
}

#[test]
fn eztv_torrents_keep_their_order_and_show_sizes() {
    let ts = vec![
        EztvTorrent { title: "Show S01E01".into(), magnet_url: "magnet:?a".into(), seeds: 5, peers: 1, size_bytes: "1610612736".into() },
        EztvTorrent { title: "Show S01E02".into(), magnet_url: "magnet:?b".into(), seeds: 7, peers: 2, size_bytes: "junk".into() },
    ];
    let r = eztv_results(ts);
    assert_eq!(r.len(), 2);
    assert_eq!(r[0].title, "Show S01E01");
    assert_eq!(r[0].magnet.as_deref(), Some("magnet:?a"));
    assert_eq!(r[0].size, "1.5 GB");
    assert_eq!(r[0].source, "EZTV");
    assert_eq!(r[1].size, "0 KB");
    assert_eq!(r[1].seeds, 7);
    assert_eq!(r[1].leeches, 2);
}

#[test]
fn piratebay_drops_its_placeholder_and_keeps_twenty() {
    let mut rs = vec![PbResult {
        name: "No results returned".into(),
        info_hash: "0".into(),
        seeders: "0".into(),
        leechers: "0".into(),
        size: "0".into(),
    }];
    for i in 0..25 {
        rs.push(PbResult {
            name: format!("Item {}", i),
            info_hash: format!("H{}", i),
            seeders: if i == 1 { "many".into() } else { format!("{}", i * 3) },
            leechers: format!("{}", i),
            size: "1048576".into(),
        });
    }
    let r = piratebay_results(rs);
    assert_eq!(r.len(), 20);
    assert_eq!(r[0].title, "Item 0");
    assert_eq!(r[1].seeds, 0);
    assert_eq!(r[2].seeds, 6);
    assert_eq!(r[2].leeches, 2);
    assert_eq!(r[19].title, "Item 19");
    assert_eq!(r[0].size, "1.0 MB");
    assert_eq!(r[0].source, "TPB");
    assert_eq!(
        r[3].magnet.as_deref(),
        Some("magnet:?xt=urn:btih:H3&dn=Item%203&tr=udp://tracker.opentrackr.org:1337/announce&tr=udp://open.stealth.si:80/announce&tr=udp://exodus.desync.com:6969/announce")
    );
    let none = piratebay_results(vec![PbResult {
        name: "No results returned".into(),
        info_hash: "0".into(),
        seeders: "0".into(),
        leechers: "0".into(),
        size: "0".into(),
    }]);
    assert!(none.is_empty());
}

#[test]
fn x1337_rows_become_results() {
    let mut rows = vec![
        X1337Row {
            name: Some(("  Big Movie 2020  ".into(), "/torrent/123/big-movie/".into())),
            seeds_text: " 42 ".into(),
            leeches_text: "7".into(),
            size_text: " 1.4 GB ".into(),
        },
        X1337Row { name: None, seeds_text: "1".into(), leeches_text: "1".into(), size_text: "x".into() },
        X1337Row {
            name: Some(("Other".into(), "https://elsewhere/".into())),
            seeds_text: "n/a".into(),
            leeches_text: "".into(),
            size_text: "".into(),
        },
    ];
    for i in 0..20 {
        rows.push(X1337Row {
            name: Some((format!("Row {}", i), format!("/t/{}", i))),
            seeds_text: "1".into(),
            leeches_text: "1".into(),
            size_text: "1 MB".into(),
        });
    }
    let r = x1337_results(rows);
    // Fifteen rows are read; the one without a name link gives nothing.
    assert_eq!(r.len(), 14);
    assert_eq!(r[0].title, "Big Movie 2020");
    assert_eq!(r[0].detail_url.as_deref(), Some("https://1337x.to/torrent/123/big-movie/"));
    assert_eq!(r[0].magnet, None);
    assert_eq!(r[0].seeds, 42);
    assert_eq!(r[0].leeches, 7);
    assert_eq!(r[0].size, "1.4 GB");
    assert_eq!(r[0].source, "1337x");
    assert_eq!(r[1].title, "Other");
    assert_eq!(r[1].detail_url, None);
    assert_eq!(r[1].seeds, 0);
    assert_eq!(r[13].title, "Row 11");
}

#[test]
fn combined_results_are_ordered_by_seeds_stably() {
    let tpb = vec![result("t1", 5, "TPB"), result("t2", 50, "TPB")];
    let yts = vec![result("y1", 5, "YTS"), result("y2", 100, "YTS")];
    let x = vec![result("x1", 50, "1337x"), result("x2", 0, "1337x")];
    let r = combine_results(Some(tpb), Some(yts), Some(x));
    let titles: Vec<&str> = r.iter().map(|s| s.title.as_str()).collect();
    assert_eq!(titles, vec!["y2", "t2", "x1", "t1", "y1", "x2"]);
    let seeds: Vec<u32> = r.iter().map(|s| s.seeds).collect();
    assert!(seeds.windows(2).all(|w| w[0] >= w[1]));

    let r = combine_results(None, Some(vec![result("a", u32::MAX, "YTS"), result("b", 0, "YTS")]), None);
    let titles: Vec<&str> = r.iter().map(|s| s.title.as_str()).collect();
    assert_eq!(titles, vec!["a", "b"]);
    assert!(combine_results(None, None, None).is_empty());
}
