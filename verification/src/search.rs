//! Torrent search: the query URLs of the sites, the results that their
//! answers give, and the combined listing.

use vstd::prelude::*;
use vstd::utf8::encode_utf8;
use crate::sizes::{format_bytes, size_text};
use crate::sorting::{key_le, sort_by_keys, lemma_sorted_keys, stably_sorted, SortKey};
use crate::text::{
    chars_of, decimal, is_text, law_parse_decimal, parse_unsigned, parse_unsigned_chars, push_all, starts_with, trim,
    trim_chars,
};
use crate::trusted::{percent_encode, string_of, url_encode};

verus! {

/// One torrent found by a search.
#[derive(Debug)]
pub struct SearchResult {
    pub title: String,
    pub magnet: Option<String>,
    pub detail_url: Option<String>,
    pub seeds: u32,
    pub leeches: u32,
    pub size: String,
    pub source: String,
}

/// The text of an optional string.
pub open spec fn opt_view(o: Option<String>) -> Option<Seq<char>> {
    match o {
        Some(s) => Some(s@),
        None => None,
    }
}

/// A search result as plain values.
pub struct SearchResultView {
    pub title: Seq<char>,
    pub magnet: Option<Seq<char>>,
    pub detail_url: Option<Seq<char>>,
    pub seeds: u32,
    pub leeches: u32,
    pub size: Seq<char>,
    pub source: Seq<char>,
}

impl View for SearchResult {
    type V = SearchResultView;

    open spec fn view(&self) -> SearchResultView {
        SearchResultView {
            title: self.title@,
            magnet: opt_view(self.magnet),
            detail_url: opt_view(self.detail_url),
            seeds: self.seeds,
            leeches: self.leeches,
            size: self.size@,
            source: self.source@,
        }
    }
}

/// The results held by a vector.
pub open spec fn result_views(v: Seq<SearchResult>) -> Seq<SearchResultView> {
    v.map_values(|r: SearchResult| r@)
}

/// The URL-encoded form of a text.
pub open spec fn encoded(s: Seq<char>) -> Seq<char> {
    percent_encode(encode_utf8(s))
}

/// `prefix`, the URL-encoded `query`, then `suffix`.
pub open spec fn query_url(prefix: Seq<char>, query: Seq<char>, suffix: Seq<char>) -> Seq<char> {
    prefix + encoded(query) + suffix
}

fn query_url_exec(prefix: &str, query: &str, suffix: &str) -> (r: String)
    ensures
        r@ == query_url(prefix@, query@, suffix@),
{
    let mut out = chars_of(prefix);
    let enc = url_encode(query);
    push_all(&mut out, chars_of(enc.as_str()).as_slice());
    push_all(&mut out, chars_of(suffix).as_slice());
    string_of(out.as_slice())
}

/// The YTS movie search for a query, twenty results by seeds.
pub fn yts_search_url(query: &str) -> (r: String)
    ensures
        r@ == query_url(
            "https://yts.mx/api/v2/list_movies.json?query_term="@,
            query@,
            "&limit=20&sort_by=seeds"@,
        ),
{
    query_url_exec("https://yts.mx/api/v2/list_movies.json?query_term=", query, "&limit=20&sort_by=seeds")
}

/// The EZTV search for a query, twenty results.
pub fn eztv_search_url(query: &str) -> (r: String)
    ensures
        r@ == query_url("https://eztvx.to/api/get-torrents?limit=20&search="@, query@, ""@),
{
    query_url_exec("https://eztvx.to/api/get-torrents?limit=20&search=", query, "")
}

/// The 1337x search page for a query, by seeders.
pub fn x1337_search_url(query: &str) -> (r: String)
    ensures
        r@ == query_url("https://1337x.to/sort-search/"@, query@, "/seeders/desc/1/"@),
{
    query_url_exec("https://1337x.to/sort-search/", query, "/seeders/desc/1/")
}

/// The apibay (PirateBay) search for a query.
pub fn piratebay_search_url(query: &str) -> (r: String)
    ensures
        r@ == query_url("https://apibay.org/q.php?q="@, query@, ""@),
{
    query_url_exec("https://apibay.org/q.php?q=", query, "")
}

/// A torrent of a YTS movie.
#[derive(Debug)]
pub struct YtsTorrent {
    pub hash: String,
    pub quality: String,
    pub size: String,
    pub seeds: u32,
    pub peers: u32,
}

/// A movie in YTS's answer.
#[derive(Debug)]
pub struct YtsMovie {
    pub title_long: String,
    pub torrents: Vec<YtsTorrent>,
}

/// The magnet link that YTS results get: the hash, the URL-encoded title and
/// three public trackers.
pub open spec fn yts_magnet(hash: Seq<char>, title: Seq<char>) -> Seq<char> {
    "magnet:?xt=urn:btih:"@ + hash + "&dn="@ + encoded(title)
        + "&tr=udp://open.stealth.si:80/announce&tr=udp://tracker.opentrackr.org:1337/announce&tr=udp://exodus.desync.com:6969/announce"@
}

/// The result for one torrent of a YTS movie.
pub open spec fn yts_item(title_long: Seq<char>, t: YtsTorrent) -> SearchResultView {
    SearchResultView {
        title: title_long + " ["@ + t.quality@ + "]"@,
        magnet: Some(yts_magnet(t.hash@, title_long)),
        detail_url: None,
        seeds: t.seeds,
        leeches: t.peers,
        size: t.size@,
        source: "YTS"@,
    }
}

/// The results for a movie's torrents.
pub open spec fn yts_movie_items(title_long: Seq<char>, ts: Seq<YtsTorrent>) -> Seq<SearchResultView> {
    ts.map_values(|t: YtsTorrent| yts_item(title_long, t))
}

/// The results for all movies, movie by movie, torrent by torrent.
pub open spec fn yts_items(movies: Seq<YtsMovie>) -> Seq<SearchResultView>
    decreases movies.len(),
{
    if movies.len() == 0 {
        seq![]
    } else {
        yts_items(movies.drop_last()) + yts_movie_items(movies.last().title_long@, movies.last().torrents@)
    }
}

fn yts_result(title_long: &String, t: YtsTorrent) -> (r: SearchResult)
    ensures
        r@ == yts_item(title_long@, t),
{
    let mut title = chars_of(title_long.as_str());
    push_all(&mut title, chars_of(" [").as_slice());
    push_all(&mut title, chars_of(t.quality.as_str()).as_slice());
    push_all(&mut title, chars_of("]").as_slice());
    let mut magnet = chars_of("magnet:?xt=urn:btih:");
    push_all(&mut magnet, chars_of(t.hash.as_str()).as_slice());
    push_all(&mut magnet, chars_of("&dn=").as_slice());
    push_all(&mut magnet, chars_of(url_encode(title_long.as_str()).as_str()).as_slice());
    push_all(
        &mut magnet,
        chars_of(
            "&tr=udp://open.stealth.si:80/announce&tr=udp://tracker.opentrackr.org:1337/announce&tr=udp://exodus.desync.com:6969/announce",
        ).as_slice(),
    );
    SearchResult {
        title: string_of(title.as_slice()),
        magnet: Some(string_of(magnet.as_slice())),
        detail_url: None,
        seeds: t.seeds,
        leeches: t.peers,
        size: t.size,
        source: String::from_str("YTS"),
    }
}

/// The search results that YTS's movie list gives: one per torrent, titled
/// with the movie and the quality, with a magnet link.
pub fn yts_results(movies: Vec<YtsMovie>) -> (r: Vec<SearchResult>)
    ensures
        result_views(r@) == yts_items(movies@),
{
    let ghost all = movies@;
    let mut out: Vec<SearchResult> = Vec::new();
    let mut rest = movies;
    let mut k: usize = 0;
    let n = rest.len();
    proof {
        assert(all.take(0) =~= Seq::<YtsMovie>::empty());
        assert(result_views(out@) =~= Seq::<SearchResultView>::empty());
    }
    while k < n
        invariant
            n == all.len(),
            k <= n,
            rest@ == all.skip(k as int),
            result_views(out@) == yts_items(all.take(k as int)),
        decreases n - k,
    {
        let ghost m = rest@[0];
        proof {
            assert(rest@[0] == all[k as int]);
        }
        let movie = rest.remove(0);
        proof {
            assert(rest@ =~= all.skip(k + 1));
        }
        let title_long = movie.title_long;
        let mut ts = movie.torrents;
        let ghost tsv = ts@;
        let ghost base = result_views(out@);
        let mut j: usize = 0;
        let tn = ts.len();
        while j < tn
            invariant
                tn == tsv.len(),
                j <= tn,
                ts@ == tsv.skip(j as int),
                result_views(out@) == base + yts_movie_items(title_long@, tsv.take(j as int)),
            decreases tn - j,
        {
            proof {
                assert(ts@[0] == tsv[j as int]);
            }
            let t = ts.remove(0);
            proof {
                assert(ts@ =~= tsv.skip(j + 1));
            }
            let ghost prev = result_views(out@);
            let r = yts_result(&title_long, t);
            out.push(r);
            proof {
                assert(result_views(out@) =~= prev.push(r@));
                assert(yts_movie_items(title_long@, tsv.take(j + 1)) =~= yts_movie_items(
                    title_long@,
                    tsv.take(j as int),
                ).push(yts_item(title_long@, tsv[j as int])));
            }
            j += 1;
        }
        proof {
            assert(tsv.take(tn as int) =~= tsv);
            assert(all.take(k + 1).drop_last() =~= all.take(k as int));
            assert(all.take(k + 1).last() == m);
        }
        k += 1;
    }
    proof {
        assert(all.take(n as int) =~= all);
    }
    out
}

/// A byte count given as text, as the results show it (`format_bytes`).
pub open spec fn bytes_text(s: Seq<char>) -> Seq<char> {
    size_text(
        match parse_unsigned(s, 0xffff_ffff_ffff_ffff) {
            Some(v) => v,
            None => 0,
        },
    )
}

/// A count given as text: its `u32` value, or 0 when it does not parse.
pub open spec fn count_of(s: Seq<char>) -> u32 {
    match parse_unsigned(s, 0xffff_ffff) {
        Some(v) => v as u32,
        None => 0,
    }
}

fn count_exec(s: &[char]) -> (r: u32)
    ensures
        r == count_of(s@),
{
    match parse_unsigned_chars(s, 0xffff_ffff) {
        Some(v) => v as u32,
        None => 0,
    }
}

/// A torrent in EZTV's answer.
#[derive(Debug)]
pub struct EztvTorrent {
    pub title: String,
    pub magnet_url: String,
    pub seeds: u32,
    pub peers: u32,
    pub size_bytes: String,
}

/// The result for an EZTV torrent.
pub open spec fn eztv_item(t: EztvTorrent) -> SearchResultView {
    SearchResultView {
        title: t.title@,
        magnet: Some(t.magnet_url@),
        detail_url: None,
        seeds: t.seeds,
        leeches: t.peers,
        size: bytes_text(t.size_bytes@),
        source: "EZTV"@,
    }
}

/// The search results that EZTV's torrent list gives, in its order.
pub fn eztv_results(torrents: Vec<EztvTorrent>) -> (r: Vec<SearchResult>)
    ensures
        result_views(r@) == torrents@.map_values(|t: EztvTorrent| eztv_item(t)),
{
    let ghost all = torrents@;
    let mut rest = torrents;
    let mut out: Vec<SearchResult> = Vec::new();
    let n = rest.len();
    let mut k: usize = 0;
    proof {
        assert(result_views(out@) =~= all.take(0).map_values(|t: EztvTorrent| eztv_item(t)));
    }
    while k < n
        invariant
            n == all.len(),
            k <= n,
            rest@ == all.skip(k as int),
            result_views(out@) == all.take(k as int).map_values(|t: EztvTorrent| eztv_item(t)),
        decreases n - k,
    {
        proof {
            assert(rest@[0] == all[k as int]);
        }
        let t = rest.remove(0);
        proof {
            assert(rest@ =~= all.skip(k + 1));
        }
        let ghost prev = result_views(out@);
        let r = SearchResult {
            seeds: t.seeds,
            leeches: t.peers,
            size: format_bytes(t.size_bytes.as_str()),
            title: t.title,
            magnet: Some(t.magnet_url),
            detail_url: None,
            source: String::from_str("EZTV"),
        };
        out.push(r);
        proof {
            assert(result_views(out@) =~= prev.push(r@));
            assert(all.take(k + 1).map_values(|t: EztvTorrent| eztv_item(t)) =~= all.take(
                k as int,
            ).map_values(|t: EztvTorrent| eztv_item(t)).push(eztv_item(all[k as int])));
        }
        k += 1;
    }
    proof {
        assert(all.take(n as int) =~= all);
    }
    out
}

/// A result in apibay's answer.
#[derive(Debug)]
pub struct PbResult {
    pub name: String,
    pub info_hash: String,
    pub seeders: String,
    pub leechers: String,
    pub size: String,
}

/// The magnet link that PirateBay results get: the hash, the URL-encoded
/// name and three public trackers.
pub open spec fn piratebay_magnet(hash: Seq<char>, name: Seq<char>) -> Seq<char> {
    "magnet:?xt=urn:btih:"@ + hash + "&dn="@ + encoded(name)
        + "&tr=udp://tracker.opentrackr.org:1337/announce&tr=udp://open.stealth.si:80/announce&tr=udp://exodus.desync.com:6969/announce"@
}

/// The result for an apibay entry.
pub open spec fn piratebay_item(r: PbResult) -> SearchResultView {
    SearchResultView {
        title: r.name@,
        magnet: Some(piratebay_magnet(r.info_hash@, r.name@)),
        detail_url: None,
        seeds: count_of(r.seeders@),
        leeches: count_of(r.leechers@),
        size: bytes_text(r.size@),
        source: "TPB"@,
    }
}

/// The apibay entries that are real results: its placeholder for an empty
/// answer is named `No results returned`.
pub open spec fn piratebay_kept(rs: Seq<PbResult>) -> Seq<PbResult>
    decreases rs.len(),
{
    if rs.len() == 0 {
        seq![]
    } else if rs.last().name@ == "No results returned"@ {
        piratebay_kept(rs.drop_last())
    } else {
        piratebay_kept(rs.drop_last()).push(rs.last())
    }
}

/// At most the first `n` elements of `s`.
pub open spec fn first_n<A>(s: Seq<A>, n: nat) -> Seq<A> {
    if s.len() <= n {
        s
    } else {
        s.take(n as int)
    }
}

/// The search results that apibay's answer gives: the first twenty real
/// entries, each with a magnet link and its counts parsed.
pub fn piratebay_results(results: Vec<PbResult>) -> (r: Vec<SearchResult>)
    ensures
        result_views(r@) == first_n(piratebay_kept(results@), 20).map_values(
            |x: PbResult| piratebay_item(x),
        ),
{
    let ghost all = results@;
    let mut rest = results;
    let mut out: Vec<SearchResult> = Vec::new();
    let n = rest.len();
    let mut k: usize = 0;
    proof {
        assert(all.take(0) =~= Seq::<PbResult>::empty());
        assert(result_views(out@) =~= first_n(piratebay_kept(all.take(0)), 20).map_values(
            |x: PbResult| piratebay_item(x),
        ));
    }
    while k < n
        invariant
            n == all.len(),
            k <= n,
            rest@ == all.skip(k as int),
            out@.len() <= 20,
            result_views(out@) == first_n(piratebay_kept(all.take(k as int)), 20).map_values(
                |x: PbResult| piratebay_item(x),
            ),
        decreases n - k,
    {
        proof {
            assert(rest@[0] == all[k as int]);
            assert(all.take(k + 1).drop_last() =~= all.take(k as int));
            assert(all.take(k + 1).last() == all[k as int]);
        }
        let x = rest.remove(0);
        proof {
            assert(rest@ =~= all.skip(k + 1));
        }
        let ghost kept_before = piratebay_kept(all.take(k as int));
        if !is_text(chars_of(x.name.as_str()).as_slice(), "No results returned") {
            if out.len() < 20 {
                let ghost prev = result_views(out@);
                let mut magnet = chars_of("magnet:?xt=urn:btih:");
                push_all(&mut magnet, chars_of(x.info_hash.as_str()).as_slice());
                push_all(&mut magnet, chars_of("&dn=").as_slice());
                push_all(&mut magnet, chars_of(url_encode(x.name.as_str()).as_str()).as_slice());
                push_all(
                    &mut magnet,
                    chars_of(
                        "&tr=udp://tracker.opentrackr.org:1337/announce&tr=udp://open.stealth.si:80/announce&tr=udp://exodus.desync.com:6969/announce",
                    ).as_slice(),
                );
                let r = SearchResult {
                    magnet: Some(string_of(magnet.as_slice())),
                    detail_url: None,
                    seeds: count_exec(chars_of(x.seeders.as_str()).as_slice()),
                    leeches: count_exec(chars_of(x.leechers.as_str()).as_slice()),
                    size: format_bytes(x.size.as_str()),
                    source: String::from_str("TPB"),
                    title: x.name,
                };
                out.push(r);
                proof {
                    assert(result_views(out@) =~= prev.push(r@));
                    assert(kept_before.len() == prev.len());
                    assert(first_n(kept_before.push(x), 20) =~= kept_before.push(x));
                    assert(first_n(kept_before.push(x), 20).map_values(|y: PbResult| piratebay_item(y))
                        =~= prev.push(piratebay_item(x)));
                }
            } else {
                proof {
                    assert(result_views(out@).len() == out@.len());
                    assert(kept_before.len() >= 20);
                    assert(first_n(kept_before.push(x), 20) =~= first_n(kept_before, 20));
                }
            }
        }
        k += 1;
    }
    proof {
        assert(all.take(n as int) =~= all);
    }
    out
}

/// A row of 1337x's result table: the name link's text and `href` (when the
/// row has one), the texts of the seeds and leeches cells, and the first
/// text of the size cell (empty when a cell is missing).
#[derive(Debug)]
pub struct X1337Row {
    pub name: Option<(String, String)>,
    pub seeds_text: String,
    pub leeches_text: String,
    pub size_text: String,
}

/// The result for a 1337x row with a name link: the magnet link is on the
/// detail page, which a site-relative link gives.
pub open spec fn x1337_item(title: Seq<char>, href: Seq<char>, row: X1337Row) -> SearchResultView {
    SearchResultView {
        title: trim(title),
        magnet: None,
        detail_url: if starts_with(href, seq!['/']) {
            Some("https://1337x.to"@ + href)
        } else {
            None
        },
        seeds: count_of(trim(row.seeds_text@)),
        leeches: count_of(trim(row.leeches_text@)),
        size: trim(row.size_text@),
        source: "1337x"@,
    }
}

/// The results of the rows seen so far: rows without a name link give none.
pub open spec fn x1337_items(rows: Seq<X1337Row>) -> Seq<SearchResultView>
    decreases rows.len(),
{
    if rows.len() == 0 {
        seq![]
    } else {
        let prev = x1337_items(rows.drop_last());
        match rows.last().name {
            Some(n) => prev.push(x1337_item(n.0@, n.1@, rows.last())),
            None => prev,
        }
    }
}

/// The search results of 1337x's result table: its first fifteen rows, each
/// one with a name link giving a result.
pub fn x1337_results(rows: Vec<X1337Row>) -> (r: Vec<SearchResult>)
    ensures
        result_views(r@) == x1337_items(first_n(rows@, 15)),
{
    let ghost all = rows@;
    let ghost used = first_n(rows@, 15);
    let mut rest = rows;
    let mut out: Vec<SearchResult> = Vec::new();
    let n: usize = if rest.len() < 15 {
        rest.len()
    } else {
        15
    };
    let mut k: usize = 0;
    proof {
        assert(used.len() == n);
        assert(used.take(0) =~= Seq::<X1337Row>::empty());
    }
    while k < n
        invariant
            n == used.len(),
            n <= all.len(),
            used == first_n(all, 15),
            k <= n,
            rest@ == all.skip(k as int),
            result_views(out@) == x1337_items(used.take(k as int)),
        decreases n - k,
    {
        proof {
            assert(rest@[0] == all[k as int]);
            assert(used[k as int] == all[k as int]);
            assert(used.take(k + 1).drop_last() =~= used.take(k as int));
            assert(used.take(k + 1).last() == all[k as int]);
        }
        let row = rest.remove(0);
        proof {
            assert(rest@ =~= all.skip(k + 1));
        }
        let ghost rv = row;
        let X1337Row { name, seeds_text, leeches_text, size_text } = row;
        match name {
            Some((title, href)) => {
                let ghost prev = result_views(out@);
                let h = chars_of(href.as_str());
                let detail_url = if h.len() > 0 && h[0] == '/' {
                    let mut d = chars_of("https://1337x.to");
                    push_all(&mut d, h.as_slice());
                    Some(string_of(d.as_slice()))
                } else {
                    None
                };
                proof {
                    if h@.len() > 0 {
                        assert(h@.subrange(0, 1) =~= seq![h@[0]]);
                        if h@[0] != '/' {
                            assert(h@.subrange(0, 1)[0] != seq!['/'][0]);
                        }
                    }
                }
                let r = SearchResult {
                    title: string_of(trim_chars(chars_of(title.as_str()).as_slice()).as_slice()),
                    magnet: None,
                    detail_url,
                    seeds: count_exec(trim_chars(chars_of(seeds_text.as_str()).as_slice()).as_slice()),
                    leeches: count_exec(trim_chars(chars_of(leeches_text.as_str()).as_slice()).as_slice()),
                    size: string_of(trim_chars(chars_of(size_text.as_str()).as_slice()).as_slice()),
                    source: String::from_str("1337x"),
                };
                out.push(r);
                proof {
                    assert(result_views(out@) =~= prev.push(r@));
                    assert(r@ == x1337_item(title@, href@, rv));
                }
            },
            None => {},
        }
        k += 1;
    }
    proof {
        assert(used.take(n as int) =~= used);
    }
    out
}

/// The order of the combined listing: most seeds first.
pub open spec fn seeds_order(r: SearchResult) -> (int, Seq<char>) {
    (0xffff_ffff - r.seeds, seq![])
}

/// The results of the searches that succeeded, PirateBay's first, then
/// YTS's, then 1337x's.
pub open spec fn gathered(
    tpb: Option<Vec<SearchResult>>,
    yts: Option<Vec<SearchResult>>,
    x1337: Option<Vec<SearchResult>>,
) -> Seq<SearchResult> {
    (match tpb {
        Some(v) => v@,
        None => seq![],
    }) + (match yts {
        Some(v) => v@,
        None => seq![],
    }) + (match x1337 {
        Some(v) => v@,
        None => seq![],
    })
}

fn append_results(out: &mut Vec<SearchResult>, more: Option<Vec<SearchResult>>)
    ensures
        final(out)@ == old(out)@ + match more {
            Some(v) => v@,
            None => seq![],
        },
{
    match more {
        Some(mut v) => {
            out.append(&mut v);
        },
        None => {
            proof {
                assert(out@ =~= out@ + Seq::<SearchResult>::empty());
            }
        },
    }
}

/// Combines the answers of the searches that succeeded and orders them by
/// seeds, most first; results with as many seeds keep their order.
pub fn combine_results(
    tpb: Option<Vec<SearchResult>>,
    yts: Option<Vec<SearchResult>>,
    x1337: Option<Vec<SearchResult>>,
) -> (r: Vec<SearchResult>)
    ensures
        stably_sorted(gathered(tpb, yts, x1337), r@, |x: SearchResult| seeds_order(x)),
{
    let ghost all = gathered(tpb, yts, x1337);
    let mut results: Vec<SearchResult> = Vec::new();
    append_results(&mut results, tpb);
    append_results(&mut results, yts);
    append_results(&mut results, x1337);
    proof {
        assert(results@ =~= all);
    }
    let mut keys: Vec<SortKey> = Vec::new();
    let mut i: usize = 0;
    while i < results.len()
        invariant
            i <= results@.len(),
            keys@.len() == i,
            forall|j: int| 0 <= j < i ==> #[trigger] keys@[j].view_key() == seeds_order(results@[j]),
        decreases results@.len() - i,
    {
        let rank = 0xffff_ffffu64 - results[i].seeds as u64;
        keys.push(SortKey { rank, text: Vec::new() });
        proof {
            assert(keys@[i as int].text@ =~= Seq::<char>::empty());
        }
        i += 1;
    }
    sort_by_keys(results, keys, Ghost(|x: SearchResult| seeds_order(x)))
}

/// Law: the combined listing has as many results as the searches gave, with
/// seeds never increasing down the list.
pub proof fn law_combined_by_seeds(all: Seq<SearchResult>, sorted: Seq<SearchResult>)
    requires
        stably_sorted(all, sorted, |x: SearchResult| seeds_order(x)),
    ensures
        sorted.len() == all.len(),
        forall|i: int, j: int| 0 <= i < j < sorted.len() ==> (#[trigger] sorted[i]).seeds >= (#[trigger] sorted[j]).seeds,
{
    lemma_sorted_keys(all, sorted, |x: SearchResult| seeds_order(x));
    assert forall|i: int, j: int| 0 <= i < j < sorted.len() implies (#[trigger] sorted[i]).seeds >= (#[trigger] sorted[j]).seeds by {
        assert(key_le(
            (|x: SearchResult| seeds_order(x))(sorted[i]),
            (|x: SearchResult| seeds_order(x))(sorted[j]),
        ));
    }
}

/// Law: a size given as the decimal text of a byte count reads as that
/// count.
pub proof fn law_bytes_text_of_decimal(n: u64)
    ensures
        bytes_text(decimal(n as nat)) == size_text(n as nat),
{
    law_parse_decimal(n as nat, 0xffff_ffff_ffff_ffff);
}

/// Law: apibay's answer gives at most twenty results, 1337x's page at most
/// fifteen.
pub proof fn law_result_counts(rs: Seq<PbResult>, rows: Seq<X1337Row>)
    ensures
        first_n(piratebay_kept(rs), 20).len() <= 20,
        x1337_items(first_n(rows, 15)).len() <= 15,
{
    lemma_x1337_items_len(first_n(rows, 15));
}

proof fn lemma_x1337_items_len(rows: Seq<X1337Row>)
    ensures
        x1337_items(rows).len() <= rows.len(),
    decreases rows.len(),
{
    if rows.len() > 0 {
        lemma_x1337_items_len(rows.drop_last());
    }
}

} // verus!
