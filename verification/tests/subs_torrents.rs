use pizerarr::subs::{
    cache_key, copy_results, subtitle_results, subtitle_search_url, CacheLookup, OsResult, SubsCache,
    SubtitleResult,
};
use pizerarr::torrent::{display_name, register_added, AddOutcome, MetaStore, TorrentMeta};

fn sub(name: &str) -> SubtitleResult {
    SubtitleResult {
        filename: name.into(),
        language: "eng".into(),
        download_url: format!("https://x/{}", name),
        download_path: None,
        format: "srt".into(),
    }
}

#[test]
fn subtitle_search_keys_and_urls() {
    assert_eq!(cache_key("The MATRIX", "eng"), "eng:the matrix");
    assert_eq!(cache_key("\u{c9}T\u{c9}", "fre"), "fre:\u{e9}t\u{e9}");
    assert_eq!(
        subtitle_search_url("The Matrix: Reloaded", "eng"),
        "http://127.0.0.1:9191/search/query-The-Matrix--Reloaded/sublanguageid-eng"
    );
    assert_eq!(
        subtitle_search_url("Caf\u{e9} 2", "fre"),
        "http://127.0.0.1:9191/search/query-Caf\u{e9}-2/sublanguageid-fre"
    );
}

#[test]
fn subtitle_results_take_the_first_ten() {
    let mut rs = Vec::new();
    for i in 0..12 {
        rs.push(OsResult {
            sub_file_name: format!("f{}.srt", i),
            sub_language_i_d: "eng".into(),
            sub_download_link: format!("https://dl/{}", i),
            sub_format: "srt".into(),
        });
    }
    let out = subtitle_results(rs);
    assert_eq!(out.len(), 10);
    assert_eq!(out[0].filename, "f0.srt");
    assert_eq!(out[9].filename, "f9.srt");
    assert_eq!(out[3].download_url, "https://dl/3");
    assert_eq!(out[3].language, "eng");
    assert_eq!(out[3].format, "srt");
    assert_eq!(out[3].download_path, None);
    assert!(subtitle_results(vec![]).is_empty());
}

#[test]
fn subtitle_cache_gives_back_what_was_stored() {
    let mut cache = SubsCache::new();
    assert_eq!(cache.len(), 0);
    let key = match cache.cached("Some Show", "eng") {
        CacheLookup::Miss(k) => k,
        CacheLookup::Hit(_) => panic!("empty cache hit"),
    };
    assert_eq!(key, "eng:some show");
    cache.store(key, vec![sub("a"), sub("b")]);
    match cache.cached("SOME SHOW", "eng") {
        CacheLookup::Hit(v) => {
            assert_eq!(v.len(), 2);
            assert_eq!(v[1].filename, "b");
        }
        CacheLookup::Miss(_) => panic!("stored answer not found"),
    }
    assert!(matches!(cache.cached("Some Show", "fre"), CacheLookup::Miss(_)));
    cache.store("eng:some show".into(), vec![]);
    assert_eq!(cache.lookup("eng:some show").map(|v| v.len()), Some(0));
    assert_eq!(cache.len(), 1);
    let copy = copy_results(&vec![sub("x")]);
    assert_eq!(copy[0].download_url, "https://x/x");
}

#[test]
fn torrent_details_are_kept_by_id() {
    let mut store = MetaStore::new();
    let meta = TorrentMeta { title: "Film".into(), poster_url: Some("http://p".into()) };
    assert_eq!(register_added(&mut store, AddOutcome::Added(3), meta), Some(3));
    let m = store.meta_for(3);
    assert_eq!(m.title, "Film");
    assert_eq!(m.poster_url.as_deref(), Some("http://p"));
    let again = TorrentMeta { title: "Film 2".into(), poster_url: None };
    assert_eq!(register_added(&mut store, AddOutcome::AlreadyManaged(3), again), Some(3));
    assert_eq!(store.meta_for(3).title, "Film 2");
    let other = TorrentMeta { title: "X".into(), poster_url: None };
    assert_eq!(register_added(&mut store, AddOutcome::Other, other), None);
    let none = store.meta_for(9);
    assert_eq!(none.title, "");
    assert_eq!(none.poster_url, None);
    store.forget(3);
    assert_eq!(store.meta_for(3).title, "");
    let d = TorrentMeta::default();
    assert_eq!(d.title, "");
}

#[test]
fn torrents_are_listed_by_name_title_or_hash() {
    assert_eq!(display_name("Name", "Title", &[1, 2]), "Name");
    assert_eq!(display_name("", "Title", &[1, 2]), "Title");
    assert_eq!(display_name("", "", &[0x00, 0xab, 0x10, 0xff]), "00ab10ff");
    assert_eq!(display_name("", "", &[]), "");
}
