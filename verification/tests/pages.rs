use pizerarr::dom::{magnet_from_detail_page, parse_tmdb_search, search_1337x_page, tmdb_cards, x1337_rows};

const X1337_PAGE: &str = r#"<html><body><table class="table-list"><thead><tr><th>name</th></tr></thead><tbody>
<tr><td class="coll-1 name"><a href="/sub/1/0/" class="icon"><i></i></a><a href="/torrent/111/Big-Movie/">Big Movie 2020</a></td><td class="coll-2 seeds">42</td><td class="coll-3 leeches">7</td><td class="coll-date">Jan</td><td class="coll-4 size">1.4 GB<span class="seeds">42</span></td></tr>
<tr><td class="coll-1 name">no links</td><td class="coll-2 seeds">1</td><td class="coll-3 leeches">1</td><td class="coll-4 size">2 MB</td></tr>
<tr><td class="coll-1 name"><a href="/sub/2/0/">x</a><a href="https://other/t">  Other  </a></td><td class="coll-2 seeds">n/a</td></tr>
</tbody></table></body></html>"#;

const TMDB_PAGE: &str = r#"<html><body>
<div class="card v4 tight"><div class="image"><a href="/movie/454626-sonic"><img src="https://media.themoviedb.org/t/p/w94_and_h141_bestv2/abc.jpg"></a></div>
<div class="details"><h2> Sonic </h2><span class="release_date">February 14, 2020</span><div class="overview"><p>A hedgehog.</p></div></div></div>
<div class="card"><a href="/person/1-someone"><h2>Someone</h2></a></div>
<div class="card"><a href="/tv/2404-sonic-x"><h2>Sonic X</h2></a><p class="overview">Cartoon.</p></div>
</body></html>"#;

#[test]
fn x1337_search_page_is_read() {
    let rows = x1337_rows(X1337_PAGE);
    assert_eq!(rows.len(), 3);
    assert!(rows[1].name.is_none());
    let r = search_1337x_page(X1337_PAGE);
    assert_eq!(r.len(), 2);
    assert_eq!(r[0].title, "Big Movie 2020");
    assert_eq!(r[0].detail_url.as_deref(), Some("https://1337x.to/torrent/111/Big-Movie/"));
    assert_eq!(r[0].seeds, 42);
    assert_eq!(r[0].leeches, 7);
    assert_eq!(r[0].size, "1.4 GB");
    assert_eq!(r[0].magnet, None);
    assert_eq!(r[1].title, "Other");
    assert_eq!(r[1].detail_url, None);
    assert_eq!(r[1].seeds, 0);
    assert_eq!(r[1].size, "");
    assert!(search_1337x_page("<html></html>").is_empty());
}

#[test]
fn tmdb_search_page_is_read() {
    assert_eq!(tmdb_cards(TMDB_PAGE).len(), 3);
    let items = parse_tmdb_search(TMDB_PAGE);
    assert_eq!(items.len(), 2);
    assert_eq!(items[0].id, 454626);
    assert_eq!(items[0].title, "Sonic");
    assert_eq!(items[0].media_type, "movie");
    assert_eq!(items[0].year, "2020");
    assert_eq!(items[0].poster_url.as_deref(), Some("https://image.tmdb.org/t/p/w342/abc.jpg"));
    assert_eq!(items[0].overview, "A hedgehog.");
    assert_eq!(items[1].id, 2404);
    assert_eq!(items[1].media_type, "tv");
    assert_eq!(items[1].overview, "Cartoon.");
    assert_eq!(items[1].poster_url, None);
}

#[test]
fn magnet_links_on_detail_pages() {
    let page = r#"<a href="/x">x</a><a href="magnet:?xt=urn:btih:AAA&dn=a">Magnet</a><a href="magnet:?xt=urn:btih:BBB">2</a>"#;
    assert_eq!(magnet_from_detail_page(page).as_deref(), Some("magnet:?xt=urn:btih:AAA&dn=a"));
    assert_eq!(magnet_from_detail_page("<a href='/x'>x</a>"), None);
}
