use pizerarr::tmdb::{
    cache_is_fresh, cache_path, poster_from_page, show_item, strip_html, tmdb_card_item, tmdb_items,
    tmdb_search_url, trending_movie_item, TmdbCard, CACHE_MAX_AGE,
};

fn card(title: Option<&str>, href: Option<&str>, date: Option<&str>, img: Option<&str>, overview: Option<&str>) -> TmdbCard {
    TmdbCard {
        title_text: title.map(|s| s.to_string()),
        href: href.map(|s| s.to_string()),
        date_text: date.map(|s| s.to_string()),
        img_src: img.map(|s| s.to_string()),
        overview_text: overview.map(|s| s.to_string()),
    }
}

#[test]
fn html_is_stripped() {
    assert_eq!(strip_html("<p>Hello <b>there</b></p>"), "Hello there");
    assert_eq!(strip_html("a > b < c"), "a  b ");
    let once = strip_html("<i>x</i>>y");
    assert_eq!(strip_html(&once), once);
}

#[test]
fn tmdb_cards_become_items() {
    let c = card(
        Some("  Sonic the Hedgehog  "),
        Some("/movie/454626-sonic-the-hedgehog"),
        Some("February 14, 2020"),
        Some("https://media.themoviedb.org/t/p/w94_and_h141_bestv2/abc.jpg"),
        Some("  A hedgehog.  "),
    );
    let m = tmdb_card_item(c).unwrap();
    assert_eq!(m.id, 454626);
    assert_eq!(m.title, "Sonic the Hedgehog");
    assert_eq!(m.media_type, "movie");
    assert_eq!(m.year, "2020");
    assert_eq!(m.poster_url.as_deref(), Some("https://image.tmdb.org/t/p/w342/abc.jpg"));
    assert_eq!(m.overview, "A hedgehog.");
    assert_eq!(m.backdrop_url, None);

    let tv = tmdb_card_item(card(Some("Show"), Some("/tv/2404"), None, Some("/local.jpg"), None)).unwrap();
    assert_eq!(tv.id, 2404);
    assert_eq!(tv.media_type, "tv");
    assert_eq!(tv.year, "");
    assert_eq!(tv.poster_url, None);
    assert_eq!(tv.overview, "");

    let bad_id = tmdb_card_item(card(Some("X"), Some("/movie/abc-x"), Some("12345 and 999"), None, None)).unwrap();
    assert_eq!(bad_id.id, 0);
    assert_eq!(bad_id.year, "");
    let run = tmdb_card_item(card(Some("X"), Some("/movie/7"), Some("1-2-2021-5"), None, None)).unwrap();
    assert_eq!(run.year, "2021");

    assert!(tmdb_card_item(card(None, Some("/movie/1"), None, None, None)).is_none());
    assert!(tmdb_card_item(card(Some("X"), Some("/person/1"), None, None, None)).is_none());
    assert!(tmdb_card_item(card(Some("X"), None, None, None, None)).is_none());

    let mut cards = Vec::new();
    for i in 0..20 {
        cards.push(card(Some("T"), Some(&format!("/tv/{}", i)), None, None, None));
    }
    cards.insert(1, card(None, None, None, None, None));
    let items = tmdb_items(cards);
    assert_eq!(items.len(), 14);
    assert_eq!(items[1].id, 1);
}

#[test]
fn tmdb_search_and_posters() {
    assert_eq!(tmdb_search_url("sonic 2"), "https://www.themoviedb.org/search?query=sonic%202");
    let page = r#"<html><img src="/t/p/w500/xyz.jpg" alt=""><img src="/t/p/w500/second.jpg"></html>"#;
    assert_eq!(poster_from_page(page).as_deref(), Some("https://image.tmdb.org/t/p/w500/xyz.jpg"));
    let single = "<img src='/t/p/w500/q.jpg'>";
    assert_eq!(poster_from_page(single).as_deref(), Some("https://image.tmdb.org/t/p/w500/q.jpg"));
    assert_eq!(poster_from_page("no poster here"), None);
    assert_eq!(poster_from_page("/t/p/w500/unterminated"), None);
}

#[test]
fn trending_items() {
    let m = trending_movie_item(603, "The Matrix".into(), 1999, Some("p".into()));
    assert_eq!(m.id, 603);
    assert_eq!(m.year, "1999");
    assert_eq!(m.media_type, "movie");
    assert_eq!(m.overview, "");
    let s = show_item(
        82,
        "Game of Thrones".into(),
        Some("<p><b>Seven</b> noble families.</p>".into()),
        Some("2011-04-17".into()),
        Some("m.jpg".into()),
        Some("o.jpg".into()),
    );
    assert_eq!(s.title, "Game of Thrones");
    assert_eq!(s.overview, "Seven noble families.");
    assert_eq!(s.year, "2011");
    assert_eq!(s.poster_url.as_deref(), Some("m.jpg"));
    assert_eq!(s.backdrop_url.as_deref(), Some("o.jpg"));
    assert_eq!(s.media_type, "tv");
    let short = show_item(1, "x".into(), None, Some("20".into()), None, None);
    assert_eq!(short.year, "");
    let split = show_item(1, "x".into(), None, Some("abc\u{e9}".into()), None, None);
    assert_eq!(split.year, "");
}

#[test]
fn trending_cache_is_kept_a_week() {
    assert_eq!(CACHE_MAX_AGE, 7 * 24 * 3600);
    assert!(cache_is_fresh(1_000_000, 1_000_000));
    assert!(cache_is_fresh(1_000_000 + CACHE_MAX_AGE - 1, 1_000_000));
    assert!(!cache_is_fresh(1_000_000 + CACHE_MAX_AGE, 1_000_000));
    assert!(!cache_is_fresh(5, 10));
    assert_eq!(cache_path("/data"), "/data/trending_cache.json");
    assert_eq!(cache_path("/data/"), "/data/trending_cache.json");
}

/// The card reading written directly with std's string methods:
/// (id, title, overview, poster, year, kind).
fn std_card(c: &TmdbCard) -> Option<(u64, String, String, Option<String>, String, String)> {
    let title = c.title_text.as_ref()?.trim().to_string();
    let href = c.href.as_ref()?;
    let (kind, id) = if let Some(rest) = href.strip_prefix("/movie/") {
        ("movie", rest.split('-').next().and_then(|s| s.parse().ok()).unwrap_or(0))
    } else if let Some(rest) = href.strip_prefix("/tv/") {
        ("tv", rest.split('-').next().and_then(|s| s.parse().ok()).unwrap_or(0))
    } else {
        return None;
    };
    let year = c
        .date_text
        .as_ref()
        .map(|t| t.split(|ch: char| !ch.is_ascii_digit()).find(|s| s.len() == 4).unwrap_or("").to_string())
        .unwrap_or_default();
    let poster = c.img_src.as_ref().and_then(|src| {
        if src.contains("themoviedb.org") {
            let up = src.replace("w94_and_h141_face", "w342").replace("w94_and_h141_bestv2", "w342");
            Some(up.replace("media.themoviedb.org/t/p/", "image.tmdb.org/t/p/"))
        } else {
            None
        }
    });
    let overview = c.overview_text.as_ref().map(|o| o.trim().to_string()).unwrap_or_default();
    Some((id, title, overview, poster, year, kind.to_string()))
}

#[test]
fn cards_match_std_string_methods() {
    let hrefs = ["/movie/12-x", "/movie/", "/movie/-1", "/tv/99999999999999999999-x", "/tv/+5", "/movies/1", "/tv/7"];
    let dates = ["", "2020", "May 1, 1999", "12345-2021", "20201", "1-2-3-4444", "\u{663}\u{663}\u{663}\u{663} 1990"];
    let imgs = [
        "https://media.themoviedb.org/t/p/w94_and_h141_face/a.jpg",
        "https://image.themoviedb.org/x.png",
        "/local.jpg",
        "themoviedb.org",
    ];
    for h in hrefs {
        for d in dates {
            for i in imgs {
                let c = card(Some(" T "), Some(h), Some(d), Some(i), Some(" o "));
                let want = std_card(&c);
                let got = tmdb_card_item(card(Some(" T "), Some(h), Some(d), Some(i), Some(" o ")))
                    .map(|m| (m.id, m.title, m.overview, m.poster_url, m.year, m.media_type));
                assert_eq!(got, want, "href {:?} date {:?} img {:?}", h, d, i);
            }
        }
    }
}
