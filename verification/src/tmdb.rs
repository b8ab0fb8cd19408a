//! Movie and show metadata: what a TMDB search page's cards say, a poster
//! found in a TMDB page, and the items built from mdblist and TVmaze entries.

use vstd::prelude::*;
use crate::search::{first_n, opt_view, query_url};
use crate::paths::{join, join_path};
use crate::text::{
    byte_prefix, byte_prefix_chars, chars_of, matches_at, matches_at_exec, contains, contains_exec, copy_range, decimal,
    decimal_chars, find_char, free_of, law_strip_tags, first_pos, is_digit, parse_unsigned, parse_unsigned_chars, push_all,
    replace_all, replace_chars, starts_with, starts_with_exec, strip_tag_chars, strip_tags, trim,
    trim_chars,
};
use crate::trusted::{string_of, url_encode};

verus! {

/// A movie or show as the front end lists it. Its rating, a floating-point
/// number, is carried beside it by the server.
#[derive(Debug)]
pub struct MetadataItem {
    pub id: u64,
    pub title: String,
    pub overview: String,
    pub poster_url: Option<String>,
    pub backdrop_url: Option<String>,
    pub year: String,
    pub media_type: String,
}

/// A metadata item as plain values.
pub struct MetadataView {
    pub id: u64,
    pub title: Seq<char>,
    pub overview: Seq<char>,
    pub poster_url: Option<Seq<char>>,
    pub backdrop_url: Option<Seq<char>>,
    pub year: Seq<char>,
    pub media_type: Seq<char>,
}

impl View for MetadataItem {
    type V = MetadataView;

    open spec fn view(&self) -> MetadataView {
        MetadataView {
            id: self.id,
            title: self.title@,
            overview: self.overview@,
            poster_url: opt_view(self.poster_url),
            backdrop_url: opt_view(self.backdrop_url),
            year: self.year@,
            media_type: self.media_type@,
        }
    }
}

/// The items held by a vector.
pub open spec fn item_views(v: Seq<MetadataItem>) -> Seq<MetadataView> {
    v.map_values(|m: MetadataItem| m@)
}

/// Text with every HTML tag (`<...>`) removed.
pub open spec fn without_html(s: Seq<char>) -> Seq<char> {
    strip_tags(s, '<', '>', false)
}

/// Removes HTML tags from a text.
pub fn strip_html(s: &str) -> (r: String)
    ensures
        r@ == without_html(s@),
{
    let v = chars_of(s);
    string_of(strip_tag_chars(v.as_slice(), '<', '>').as_slice())
}

/// TMDB's search page for a query.
pub fn tmdb_search_url(query: &str) -> (r: String)
    ensures
        r@ == query_url("https://www.themoviedb.org/search?query="@, query@, ""@),
{
    let mut out = chars_of("https://www.themoviedb.org/search?query=");
    let enc = url_encode(query);
    push_all(&mut out, chars_of(enc.as_str()).as_slice());
    proof {
        reveal_strlit("");
        assert(out@ =~= out@ + ""@);
    }
    string_of(out.as_slice())
}

/// What a result card of TMDB's search page holds: the text of its first
/// `h2`, the `href` of its first link, the text of its release date, the
/// `src` of its first image and the text of its overview (each `None` when
/// the card has no such element).
#[derive(Debug)]
pub struct TmdbCard {
    pub title_text: Option<String>,
    pub href: Option<String>,
    pub date_text: Option<String>,
    pub img_src: Option<String>,
    pub overview_text: Option<String>,
}

/// Index of the first character of `s` that is not an ASCII digit, or
/// `s.len()`.
pub open spec fn first_non_digit(s: Seq<char>) -> nat
    decreases s.len(),
{
    if s.len() == 0 || !is_digit(s[0]) {
        0
    } else {
        1 + first_non_digit(s.drop_first())
    }
}

/// The first run of ASCII digits, between non-digits, that is four long (what
/// `split(|c| !c.is_ascii_digit()).find(|s| s.len() == 4)` finds).
pub open spec fn four_digit_run(s: Seq<char>) -> Option<Seq<char>>
    decreases s.len(),
{
    let p = first_non_digit(s);
    if p == 4 {
        Some(s.take(4))
    } else if p >= s.len() {
        None
    } else {
        four_digit_run(s.skip(p + 1 as int))
    }
}

/// The year in a release-date text such as `February 14, 2020`; empty when
/// there is none.
pub open spec fn year_in(text: Seq<char>) -> Seq<char> {
    match four_digit_run(text) {
        Some(y) => y,
        None => seq![],
    }
}

proof fn lemma_first_non_digit(s: Seq<char>)
    ensures
        first_non_digit(s) <= s.len(),
        forall|i: int| 0 <= i < first_non_digit(s) ==> is_digit(s[i]),
        first_non_digit(s) < s.len() ==> !is_digit(s[first_non_digit(s) as int]),
    decreases s.len(),
{
    if s.len() > 0 && is_digit(s[0]) {
        lemma_first_non_digit(s.drop_first());
        assert forall|i: int| 0 <= i < first_non_digit(s) implies is_digit(s[i]) by {
            if i > 0 {
                assert(s[i] == s.drop_first()[i - 1]);
            }
        }
    }
}

proof fn lemma_first_non_digit_at(s: Seq<char>, p: int)
    requires
        0 <= p <= s.len(),
        forall|i: int| 0 <= i < p ==> is_digit(s[i]),
        p < s.len() ==> !is_digit(s[p]),
    ensures
        first_non_digit(s) == p,
    decreases s.len(),
{
    if s.len() > 0 && p > 0 {
        assert forall|i: int| 0 <= i < p - 1 implies is_digit(s.drop_first()[i]) by {
            assert(s.drop_first()[i] == s[i + 1]);
        }
        if p - 1 < s.drop_first().len() {
            assert(s.drop_first()[p - 1] == s[p]);
        }
        lemma_first_non_digit_at(s.drop_first(), p - 1);
    }
}

fn year_chars(text: &[char]) -> (r: Vec<char>)
    ensures
        r@ == year_in(text@),
{
    let mut start: usize = 0;
    proof {
        assert(text@.skip(0) =~= text@);
    }
    loop
        invariant
            start <= text@.len(),
            four_digit_run(text@) == four_digit_run(text@.skip(start as int)),
        decreases text@.len() - start,
    {
        let mut p = start;
        while p < text.len() && '0' <= text[p] && text[p] <= '9'
            invariant
                start <= p <= text@.len(),
                forall|i: int| start <= i < p ==> is_digit(text@[i]),
            decreases text@.len() - p,
        {
            p += 1;
        }
        let ghost rest = text@.skip(start as int);
        proof {
            assert forall|i: int| 0 <= i < p - start implies is_digit(rest[i]) by {
                assert(rest[i] == text@[i + start]);
            }
            if p < text@.len() {
                assert(rest[p - start] == text@[p as int]);
            }
            lemma_first_non_digit_at(rest, p - start);
        }
        if p - start == 4 {
            let y = copy_range(text, start, p);
            proof {
                assert(y@ =~= rest.take(4));
            }
            return y;
        }
        if p == text.len() {
            return Vec::new();
        }
        proof {
            assert(rest.skip(p - start + 1) =~= text@.skip(p + 1));
        }
        start = p + 1;
    }
}

/// The kind and id of a TMDB link (`/movie/939243-sonic`, `/tv/2404-sonic`):
/// the id is the part before the first `-`, 0 when it is not a `u64`.
pub open spec fn link_target(href: Seq<char>) -> Option<(Seq<char>, u64)> {
    let (kind, rest) = if starts_with(href, "/movie/"@) {
        ("movie"@, href.skip(7))
    } else if starts_with(href, "/tv/"@) {
        ("tv"@, href.skip(4))
    } else {
        (seq![], seq![])
    };
    if kind.len() == 0 {
        None
    } else {
        let digits = rest.take(first_pos(rest, '-') as int);
        Some(
            (
                kind,
                match parse_unsigned(digits, 0xffff_ffff_ffff_ffff) {
                    Some(v) => v as u64,
                    None => 0,
                },
            ),
        )
    }
}

/// A TMDB poster URL in the size and on the host that the front end uses:
/// thumbnails become `w342`, and `media.themoviedb.org` images are taken from
/// `image.tmdb.org`.
pub open spec fn upgraded_poster(src: Seq<char>) -> Seq<char> {
    replace_all(
        replace_all(replace_all(src, "w94_and_h141_face"@, "w342"@), "w94_and_h141_bestv2"@, "w342"@),
        "media.themoviedb.org/t/p/"@,
        "image.tmdb.org/t/p/"@,
    )
}

/// The item that a search result card gives: cards without a title or
/// without a movie or show link give none.
pub open spec fn card_item(card: TmdbCard) -> Option<MetadataView> {
    match (card.title_text, card.href) {
        (Some(t), Some(h)) => match link_target(h@) {
            Some((kind, id)) => Some(
                MetadataView {
                    id,
                    title: trim(t@),
                    overview: match card.overview_text {
                        Some(o) => trim(o@),
                        None => seq![],
                    },
                    poster_url: match card.img_src {
                        Some(src) => if contains(src@, "themoviedb.org"@) {
                            Some(upgraded_poster(src@))
                        } else {
                            None
                        },
                        None => None,
                    },
                    backdrop_url: None,
                    year: match card.date_text {
                        Some(d) => year_in(d@),
                        None => seq![],
                    },
                    media_type: kind,
                },
            ),
            None => None,
        },
        _ => None,
    }
}

/// The items of a list of cards, in order.
pub open spec fn card_items(cards: Seq<TmdbCard>) -> Seq<MetadataView>
    decreases cards.len(),
{
    if cards.len() == 0 {
        seq![]
    } else {
        match card_item(cards.last()) {
            Some(m) => card_items(cards.drop_last()).push(m),
            None => card_items(cards.drop_last()),
        }
    }
}

fn link_target_exec(href: &[char]) -> (r: Option<(&'static str, u64)>)
    ensures
        match r {
            Some((k, id)) => link_target(href@) == Some((k@, id)),
            None => link_target(href@) is None,
        },
{
    let movie = chars_of("/movie/");
    let tv = chars_of("/tv/");
    proof {
        reveal_strlit("/movie/");
        reveal_strlit("/tv/");
        reveal_strlit("movie");
        reveal_strlit("tv");
    }
    let (kind, start): (&'static str, usize) = if starts_with_exec(href, movie.as_slice()) {
        ("movie", 7)
    } else if starts_with_exec(href, tv.as_slice()) {
        ("tv", 4)
    } else {
        return None;
    };
    let dash = find_char(href, start, '-');
    let digits = copy_range(href, start, dash);
    proof {
        let rest = href@.skip(start as int);
        assert(digits@ =~= rest.take(first_pos(rest, '-') as int));
    }
    let id: u64 = match parse_unsigned_chars(digits.as_slice(), 0xffff_ffff_ffff_ffff) {
        Some(v) => v,
        None => 0,
    };
    Some((kind, id))
}

fn upgraded_poster_chars(src: &[char]) -> (r: Vec<char>)
    ensures
        r@ == upgraded_poster(src@),
{
    let face = chars_of("w94_and_h141_face");
    let best = chars_of("w94_and_h141_bestv2");
    let w342 = chars_of("w342");
    let media = chars_of("media.themoviedb.org/t/p/");
    let image = chars_of("image.tmdb.org/t/p/");
    proof {
        reveal_strlit("w94_and_h141_face");
        reveal_strlit("w94_and_h141_bestv2");
        reveal_strlit("media.themoviedb.org/t/p/");
    }
    let a = replace_chars(src, face.as_slice(), w342.as_slice());
    let b = replace_chars(a.as_slice(), best.as_slice(), w342.as_slice());
    replace_chars(b.as_slice(), media.as_slice(), image.as_slice())
}

/// The item that a search result card gives.
pub fn tmdb_card_item(card: TmdbCard) -> (r: Option<MetadataItem>)
    ensures
        match r {
            Some(m) => card_item(card) == Some(m@),
            None => card_item(card) is None,
        },
{
    let ghost c = card;
    let TmdbCard { title_text, href, date_text, img_src, overview_text } = card;
    let t = match title_text {
        Some(t) => t,
        None => return None,
    };
    let h = match href {
        Some(h) => h,
        None => return None,
    };
    let (kind, id) = match link_target_exec(chars_of(h.as_str()).as_slice()) {
        Some(x) => x,
        None => return None,
    };
    let year = match &date_text {
        Some(d) => string_of(year_chars(chars_of(d.as_str()).as_slice()).as_slice()),
        None => String::new(),
    };
    let poster_url = match &img_src {
        Some(src) => {
            let v = chars_of(src.as_str());
            if contains_exec(v.as_slice(), chars_of("themoviedb.org").as_slice()) {
                Some(string_of(upgraded_poster_chars(v.as_slice()).as_slice()))
            } else {
                None
            }
        },
        None => None,
    };
    let overview = match &overview_text {
        Some(o) => string_of(trim_chars(chars_of(o.as_str()).as_slice()).as_slice()),
        None => String::new(),
    };
    let item = MetadataItem {
        id,
        title: string_of(trim_chars(chars_of(t.as_str()).as_slice()).as_slice()),
        overview,
        poster_url,
        backdrop_url: None,
        year,
        media_type: String::from_str(kind),
    };
    proof {
        assert(card_item(c) == Some(item@));
    }
    Some(item)
}

/// The items of TMDB's search page, from the cards in it: the first fifteen
/// cards, each one with a title and a movie or show link giving an item.
pub fn tmdb_items(cards: Vec<TmdbCard>) -> (r: Vec<MetadataItem>)
    ensures
        item_views(r@) == card_items(first_n(cards@, 15)),
{
    let ghost all = cards@;
    let ghost used = first_n(cards@, 15);
    let mut rest = cards;
    let mut out: Vec<MetadataItem> = Vec::new();
    let n: usize = if rest.len() < 15 {
        rest.len()
    } else {
        15
    };
    let mut k: usize = 0;
    proof {
        assert(used.len() == n);
        assert(used.take(0) =~= Seq::<TmdbCard>::empty());
        assert(item_views(out@) =~= Seq::<MetadataView>::empty());
    }
    while k < n
        invariant
            n == used.len(),
            n <= all.len(),
            used == first_n(all, 15),
            k <= n,
            rest@ == all.skip(k as int),
            item_views(out@) == card_items(used.take(k as int)),
        decreases n - k,
    {
        proof {
            assert(rest@[0] == all[k as int]);
            assert(used[k as int] == all[k as int]);
            assert(used.take(k + 1).drop_last() =~= used.take(k as int));
            assert(used.take(k + 1).last() == all[k as int]);
        }
        let card = rest.remove(0);
        proof {
            assert(rest@ =~= all.skip(k + 1));
        }
        let ghost prev = item_views(out@);
        match tmdb_card_item(card) {
            Some(m) => {
                out.push(m);
                proof {
                    assert(item_views(out@) =~= prev.push(m@));
                }
            },
            None => {},
        }
        k += 1;
    }
    proof {
        assert(used.take(n as int) =~= used);
    }
    out
}

/// The index of the first occurrence of `pat` in `s` (`str::find`).
pub open spec fn find_text(s: Seq<char>, pat: Seq<char>) -> Option<nat>
    decreases s.len(),
{
    if matches_at(s, 0, pat) {
        Some(0)
    } else if s.len() == 0 {
        None
    } else {
        match find_text(s.drop_first(), pat) {
            Some(i) => Some(i + 1),
            None => None,
        }
    }
}

proof fn lemma_find_text_step(s: Seq<char>, pat: Seq<char>, i: int)
    requires
        0 <= i < s.len(),
        !matches_at(s, i, pat),
    ensures
        find_text(s.skip(i), pat) == match find_text(s.skip(i + 1), pat) {
            Some(j) => Some(j + 1),
            None => None::<nat>,
        },
{
    let t = s.skip(i);
    assert(t.drop_first() =~= s.skip(i + 1));
    if pat.len() <= t.len() {
        assert(t.subrange(0, pat.len() as int) =~= s.subrange(i, i + pat.len()));
    }
}

/// The poster that a TMDB movie or show page shows: the path after
/// `/t/p/` of the first `/t/p/w500/` image, up to the next `"` (or, when there
/// is none, the next `'`), on `image.tmdb.org`.
pub open spec fn poster_in_page(html: Seq<char>) -> Option<Seq<char>> {
    match find_text(html, "/t/p/w500/"@) {
        Some(pos) => {
            let rest = html.skip(pos + 5 as int);
            let q = first_pos(rest, '"');
            let a = first_pos(rest, '\'');
            if q < rest.len() {
                Some("https://image.tmdb.org/t/p/"@ + rest.take(q as int))
            } else if a < rest.len() {
                Some("https://image.tmdb.org/t/p/"@ + rest.take(a as int))
            } else {
                None
            }
        },
        None => None,
    }
}

/// The poster URL found in a TMDB movie or show page, if any.
pub fn poster_from_page(html: &str) -> (r: Option<String>)
    ensures
        opt_view(r) == poster_in_page(html@),
{
    let v = chars_of(html);
    let needle = chars_of("/t/p/w500/");
    proof {
        reveal_strlit("/t/p/w500/");
        assert(v@.skip(0) =~= v@);
    }
    let mut i: usize = 0;
    let mut found = false;
    while !found && i < v.len()
        invariant
            i <= v@.len(),
            needle@ == "/t/p/w500/"@,
            !found ==> find_text(v@, needle@) == match find_text(v@.skip(i as int), needle@) {
                Some(j) => Some((j + i) as nat),
                None => None::<nat>,
            },
            found ==> find_text(v@, needle@) == Some(i as nat) && matches_at(v@, i as int, needle@),
        decreases v@.len() - i + (if found { 0int } else { 1int }),
    {
        if matches_at_exec(v.as_slice(), i, needle.as_slice()) {
            proof {
                crate::text::lemma_matches_at_skip_pub(v@, i as int, needle@);
            }
            found = true;
        } else {
            proof {
                lemma_find_text_step(v@, needle@, i as int);
            }
            i += 1;
        }
    }
    if !found {
        proof {
            assert(v@.skip(i as int).len() == 0);
            assert(!matches_at(v@.skip(i as int), 0, needle@));
        }
        return None;
    }
    proof {
        assert(needle@.len() == 10);
        assert(matches_at(v@, i as int, needle@));
        assert(i + 10 <= v@.len());
        assert(v@.len() == v.len());
    }
    let start = i + 5;
    let q = find_char(v.as_slice(), start, '"');
    let a = find_char(v.as_slice(), start, '\'');
    let end = if q < v.len() {
        q
    } else if a < v.len() {
        a
    } else {
        return None;
    };
    let mut out = chars_of("https://image.tmdb.org/t/p/");
    push_all(&mut out, copy_range(v.as_slice(), start, end).as_slice());
    proof {
        let rest = v@.skip(start as int);
        assert(v@.subrange(start as int, end as int) =~= rest.take(end - start));
    }
    Some(string_of(out.as_slice()))
}

/// The item for a movie of mdblist's weekly list.
pub fn trending_movie_item(id: u64, title: String, release_year: u32, poster_url: Option<String>) -> (r: MetadataItem)
    ensures
        r@ == (MetadataView {
            id,
            title: title@,
            overview: seq![],
            poster_url: opt_view(poster_url),
            backdrop_url: None,
            year: decimal(release_year as nat),
            media_type: "movie"@,
        }),
{
    MetadataItem {
        id,
        title,
        overview: String::new(),
        poster_url,
        backdrop_url: None,
        year: string_of(decimal_chars(release_year as u128).as_slice()),
        media_type: String::from_str("movie"),
    }
}

/// The item for a TVmaze show: its year is the first four bytes of its
/// premiere date (empty when there are not four or they end inside a
/// character), its overview its summary without HTML.
pub open spec fn show_view(
    id: u64,
    name: Seq<char>,
    summary: Option<Seq<char>>,
    premiered: Option<Seq<char>>,
    image_medium: Option<Seq<char>>,
    image_original: Option<Seq<char>>,
) -> MetadataView {
    MetadataView {
        id,
        title: name,
        overview: match summary {
            Some(s) => without_html(s),
            None => seq![],
        },
        poster_url: image_medium,
        backdrop_url: image_original,
        year: match premiered {
            Some(d) => match byte_prefix(d, 4) {
                Some(y) => y,
                None => seq![],
            },
            None => seq![],
        },
        media_type: "tv"@,
    }
}

/// The item for a TVmaze show.
pub fn show_item(
    id: u64,
    name: String,
    summary: Option<String>,
    premiered: Option<String>,
    image_medium: Option<String>,
    image_original: Option<String>,
) -> (r: MetadataItem)
    ensures
        r@ == show_view(
            id,
            name@,
            opt_view(summary),
            opt_view(premiered),
            opt_view(image_medium),
            opt_view(image_original),
        ),
{
    let year = match &premiered {
        Some(d) => match byte_prefix_chars(chars_of(d.as_str()).as_slice(), 4) {
            Some(y) => string_of(y.as_slice()),
            None => String::new(),
        },
        None => String::new(),
    };
    let overview = match &summary {
        Some(s) => strip_html(s.as_str()),
        None => String::new(),
    };
    MetadataItem {
        id,
        title: name,
        overview,
        poster_url: image_medium,
        backdrop_url: image_original,
        year,
        media_type: String::from_str("tv"),
    }
}

/// The file the trending lists are cached in, in the data directory.
pub fn cache_path(data_dir: &str) -> (r: String)
    ensures
        r@ == join_path(data_dir@, "trending_cache.json"@),
{
    string_of(join(chars_of(data_dir).as_slice(), chars_of("trending_cache.json").as_slice()).as_slice())
}

/// How long the trending cache is used: one week, in seconds.
pub const CACHE_MAX_AGE: u64 = 604800;

/// Whether a trending cache written at `fetched_at` is still used at `now`:
/// the time since is under a week (a cache from the future counts as very
/// old, as the unchecked subtraction wraps around in a release build).
pub fn cache_is_fresh(now: u64, fetched_at: u64) -> (r: bool)
    ensures
        r == ((now - fetched_at) % 0x1_0000_0000_0000_0000 < CACHE_MAX_AGE),
{
    now.wrapping_sub(fetched_at) < CACHE_MAX_AGE
}

/// Law: stripping HTML leaves no `<` or `>` and never lengthens the text;
/// stripping again changes nothing.
pub proof fn law_strip_html(s: Seq<char>)
    ensures
        free_of(without_html(s), '<', '>'),
        without_html(s).len() <= s.len(),
        without_html(without_html(s)) == without_html(s),
{
    law_strip_tags(s, '<', '>');
}

} // verus!
