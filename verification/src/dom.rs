//! HTML pages read through the `scraper` crate: the rows of 1337x's result
//! table, the cards of TMDB's search page and the magnet link of a 1337x
//! detail page.
//!
//! What the HTML parser finds in a page is named, not written out: an
//! element is identified by the text of its page and a path of selection
//! steps, each a selector and an index (the first step picks the index-th
//! match in the page, each further step the first match below the element
//! before). The names say what the parser gives for such an element; the
//! verified functions state what they build from it.

use vstd::prelude::*;
use scraper::{ElementRef, Html, Selector};
use crate::library::string_views;
use crate::text::{chars_of, push_all};
use crate::trusted::string_of;
use crate::search::{x1337_items, x1337_results, first_n, opt_view, result_views, SearchResult, X1337Row};
use crate::tmdb::{card_items, item_views, tmdb_items, MetadataItem, TmdbCard};

verus! {

#[verifier::external_type_specification]
#[verifier::external_body]
pub struct ExHtml(Html);

#[verifier::external_type_specification]
#[verifier::external_body]
pub struct ExSelector(Selector);

#[verifier::external_type_specification]
#[verifier::external_body]
pub struct ExElementRef<'a>(ElementRef<'a>);

/// A path of selection steps from a page to one of its elements.
pub type ElementPath = Seq<(Seq<char>, nat)>;

/// A parsed page, with the text it was parsed from.
pub struct Page {
    doc: Html,
    text: Ghost<Seq<char>>,
}

impl View for Page {
    type V = Seq<char>;

    closed spec fn view(&self) -> Seq<char> {
        self.text@
    }
}

/// A parsed CSS selector, with its text.
pub struct Css {
    sel: Selector,
    text: Ghost<Seq<char>>,
}

impl View for Css {
    type V = Seq<char>;

    closed spec fn view(&self) -> Seq<char> {
        self.text@
    }
}

/// An element of a parsed page, with the page's text and its path.
pub struct Node<'a> {
    el: ElementRef<'a>,
    page: Ghost<Seq<char>>,
    path: Ghost<ElementPath>,
}

impl<'a> View for Node<'a> {
    type V = (Seq<char>, ElementPath);

    closed spec fn view(&self) -> (Seq<char>, ElementPath) {
        (self.page@, self.path@)
    }
}

/// Whether `scraper::Selector::parse` accepts a selector.
pub uninterp spec fn css_parses(css: Seq<char>) -> bool;

/// How many elements `scraper::Html::select` yields for a selector in the
/// page parsed from `html`.
pub uninterp spec fn page_matches(html: Seq<char>, css: Seq<char>) -> nat;

/// Whether `scraper::ElementRef::select` finds an element matching `css`
/// below the element at `path`.
pub uninterp spec fn has_match_below(html: Seq<char>, path: ElementPath, css: Seq<char>) -> bool;

/// The text nodes that `scraper::ElementRef::text` yields for the element at
/// `path`, in order.
pub uninterp spec fn element_texts(html: Seq<char>, path: ElementPath) -> Seq<Seq<char>>;

/// The value that `scraper::ElementRef::attr` gives for an attribute of the
/// element at `path`.
pub uninterp spec fn element_attr(html: Seq<char>, path: ElementPath, name: Seq<char>) -> Option<Seq<char>>;

/// `scraper::Html::parse_document`: the page parsed from `html`.
#[verifier::external_body]
fn parse_document(html: &str) -> (r: Page)
    ensures
        r@ == html@,
{
    Page { doc: Html::parse_document(html), text: Ghost(html@) }
}

/// `scraper::Selector::parse`, with its error turned into `None`.
#[verifier::external_body]
fn parse_selector(css: &str) -> (r: Option<Css>)
    ensures
        r is Some == css_parses(css@),
        r matches Some(s) ==> s@ == css@,
{
    Selector::parse(css).ok().map(|sel| Css { sel, text: Ghost(css@) })
}

/// `scraper::Html::select`, collected: the page's elements that match, in
/// document order; the `i`-th is the element at path `[(css, i)]`.
#[verifier::external_body]
fn select_in_page<'a>(page: &'a Page, sel: &Css) -> (r: Vec<Node<'a>>)
    ensures
        r@.len() == page_matches(page@, sel@),
        forall|i: int| 0 <= i < r@.len() ==> #[trigger] r@[i]@ == (page@, seq![(sel@, i as nat)]),
{
    page.doc.select(&sel.sel).enumerate().map(
        |(i, el)| Node { el, page: Ghost(page@), path: Ghost(seq![(sel@, i as nat)]) },
    ).collect()
}

/// `scraper::ElementRef::select`, first match: the first element below `node`
/// that matches, whose path is `node`'s extended by `(css, 0)`.
#[verifier::external_body]
fn first_below<'a>(node: &Node<'a>, sel: &Css) -> (r: Option<Node<'a>>)
    ensures
        r is Some == has_match_below(node@.0, node@.1, sel@),
        r matches Some(n) ==> n@ == (node@.0, node@.1.push((sel@, 0nat))),
{
    node.el.select(&sel.sel).next().map(
        |el| Node { el, page: Ghost(node@.0), path: Ghost(node@.1.push((sel@, 0nat))) },
    )
}

/// `scraper::ElementRef::text`, collected: the element's text nodes, in
/// order.
#[verifier::external_body]
fn texts_of(node: &Node) -> (r: Vec<String>)
    ensures
        string_views(r@) == element_texts(node@.0, node@.1),
{
    node.el.text().map(|t| t.to_string()).collect()
}

/// The texts joined into one.
fn joined(ts: &Vec<String>) -> (r: String)
    ensures
        r@ == string_views(ts@).flatten(),
{
    let ghost v = string_views(ts@);
    let mut out: Vec<char> = Vec::new();
    let mut k: usize = 0;
    proof {
        assert(v.take(0) =~= Seq::<Seq<char>>::empty());
    }
    while k < ts.len()
        invariant
            k <= ts@.len(),
            v == string_views(ts@),
            out@ == v.take(k as int).flatten_alt(),
        decreases ts@.len() - k,
    {
        push_all(&mut out, chars_of(ts[k].as_str()).as_slice());
        proof {
            let t = v.take(k + 1);
            assert(t.drop_last() =~= v.take(k as int));
            assert(t.last() == ts@[k as int]@);
        }
        k += 1;
    }
    proof {
        assert(v.take(k as int) =~= v);
        v.lemma_flatten_and_flatten_alt_are_equivalent();
    }
    string_of(out.as_slice())
}

/// The element's text.
fn text_of(node: &Node) -> (r: String)
    ensures
        r@ == element_texts(node@.0, node@.1).flatten(),
{
    joined(&texts_of(node))
}

/// The element's first text node, empty when it has none.
fn first_text_of(node: &Node) -> (r: String)
    ensures
        r@ == first_text(element_texts(node@.0, node@.1)),
{
    let ts = texts_of(node);
    if ts.len() > 0 {
        proof {
            assert(string_views(ts@)[0] == ts@[0]@);
        }
        ts[0].clone()
    } else {
        String::new()
    }
}

/// `scraper::ElementRef::attr`: the value of an attribute.
#[verifier::external_body]
fn attr_of(node: &Node, name: &str) -> (r: Option<String>)
    ensures
        opt_view(r) == element_attr(node@.0, node@.1, name@),
{
    node.el.attr(name).map(|v| v.to_string())
}

/// The first of a sequence of texts, empty when there is none.
pub open spec fn first_text(ts: Seq<Seq<char>>) -> Seq<char> {
    if ts.len() > 0 {
        ts[0]
    } else {
        seq![]
    }
}

/// The text of the first element matching `css` below the element at
/// `path`, if there is one.
pub open spec fn text_below(html: Seq<char>, path: ElementPath, css: Seq<char>) -> Option<Seq<char>> {
    if has_match_below(html, path, css) {
        Some(element_texts(html, path.push((css, 0nat))).flatten())
    } else {
        None
    }
}

/// The value of attribute `name` (empty when it has none) of the first
/// element matching `css` below the element at `path`, if there is one.
pub open spec fn attr_below(html: Seq<char>, path: ElementPath, css: Seq<char>, name: Seq<char>) -> Option<Seq<char>> {
    if has_match_below(html, path, css) {
        Some(
            match element_attr(html, path.push((css, 0nat)), name) {
                Some(v) => v,
                None => seq![],
            },
        )
    } else {
        None
    }
}

/// The selectors of 1337x's result table.
pub open spec fn x1337_row_css() -> Seq<char> {
    ".table-list tbody tr"@
}

pub open spec fn x1337_name_css() -> Seq<char> {
    "td.name a:nth-child(2)"@
}

pub open spec fn x1337_seeds_css() -> Seq<char> {
    "td.seeds"@
}

pub open spec fn x1337_leeches_css() -> Seq<char> {
    "td.leeches"@
}

pub open spec fn x1337_size_css() -> Seq<char> {
    "td.size"@
}

/// Whether all the selectors of 1337x's result table parse.
pub open spec fn x1337_selectors_parse() -> bool {
    css_parses(x1337_row_css()) && css_parses(x1337_name_css()) && css_parses(x1337_seeds_css())
        && css_parses(x1337_leeches_css()) && css_parses(x1337_size_css())
}

/// `n`, but at most `m`.
pub open spec fn at_most(n: nat, m: nat) -> nat {
    if n < m {
        n
    } else {
        m
    }
}

/// What the `i`-th row of the table gives: the text and `href` (empty when
/// missing) of its name link, if it has one; the texts of its seeds and
/// leeches cells and the first text of its size cell (empty when missing).
pub open spec fn x1337_row_read(r: X1337Row, html: Seq<char>, i: nat) -> bool {
    let p = seq![(x1337_row_css(), i)];
    let name_text = text_below(html, p, x1337_name_css());
    let name_href = attr_below(html, p, x1337_name_css(), "href"@);
    &&& match r.name {
        Some(n) => name_text == Some(n.0@) && name_href == Some(n.1@),
        None => name_text is None,
    }
    &&& r.seeds_text@ == match text_below(html, p, x1337_seeds_css()) {
        Some(t) => t,
        None => seq![],
    }
    &&& r.leeches_text@ == match text_below(html, p, x1337_leeches_css()) {
        Some(t) => t,
        None => seq![],
    }
    &&& r.size_text@ == if has_match_below(html, p, x1337_size_css()) {
        first_text(element_texts(html, p.push((x1337_size_css(), 0nat))))
    } else {
        seq![]
    }
}

fn text_or_empty(t: Option<String>) -> (r: String)
    ensures
        r@ == match opt_view(t) {
            Some(s) => s,
            None => seq![],
        },
{
    match t {
        Some(s) => s,
        None => String::new(),
    }
}

fn text_below_exec(node: &Node, sel: &Css) -> (r: Option<String>)
    ensures
        opt_view(r) == text_below(node@.0, node@.1, sel@),
{
    match first_below(node, sel) {
        Some(el) => Some(text_of(&el)),
        None => None,
    }
}

fn attr_below_exec(node: &Node, sel: &Css, name: &str) -> (r: Option<String>)
    ensures
        opt_view(r) == attr_below(node@.0, node@.1, sel@, name@),
{
    match first_below(node, sel) {
        Some(el) => Some(text_or_empty(attr_of(&el, name))),
        None => None,
    }
}

/// What a page's first fifteen table rows give, in order (none when a
/// selector does not parse).
pub open spec fn x1337_page_rows(rows: Seq<X1337Row>, html: Seq<char>) -> bool {
    &&& rows.len() == if x1337_selectors_parse() {
        at_most(page_matches(html, x1337_row_css()), 15)
    } else {
        0
    }
    &&& forall|i: int| 0 <= i < rows.len() ==> #[trigger] x1337_row_read(rows[i], html, i as nat)
}

/// The first fifteen rows of 1337x's result table in a search page.
pub fn x1337_rows(html: &str) -> (rows: Vec<X1337Row>)
    ensures
        rows@.len() <= 15,
        x1337_selectors_parse() ==> rows@.len() == at_most(page_matches(html@, x1337_row_css()), 15),
        !x1337_selectors_parse() ==> rows@.len() == 0,
        forall|i: int| 0 <= i < rows@.len() ==> #[trigger] x1337_row_read(rows@[i], html@, i as nat),
{
    let mut out: Vec<X1337Row> = Vec::new();
    let doc = parse_document(html);
    let row_sel = match parse_selector(".table-list tbody tr") {
        Some(s) => s,
        None => return out,
    };
    let name_sel = match parse_selector("td.name a:nth-child(2)") {
        Some(s) => s,
        None => return out,
    };
    let seeds_sel = match parse_selector("td.seeds") {
        Some(s) => s,
        None => return out,
    };
    let leeches_sel = match parse_selector("td.leeches") {
        Some(s) => s,
        None => return out,
    };
    let size_sel = match parse_selector("td.size") {
        Some(s) => s,
        None => return out,
    };
    let rows = select_in_page(&doc, &row_sel);
    let mut i: usize = 0;
    while i < rows.len() && i < 15
        invariant
            out@.len() == i,
            i <= 15,
            i <= rows@.len(),
            doc@ == html@,
            row_sel@ == x1337_row_css(),
            name_sel@ == x1337_name_css(),
            seeds_sel@ == x1337_seeds_css(),
            leeches_sel@ == x1337_leeches_css(),
            size_sel@ == x1337_size_css(),
            rows@.len() == page_matches(doc@, row_sel@),
            forall|k: int| 0 <= k < rows@.len() ==> #[trigger] rows@[k]@ == (doc@, seq![(row_sel@, k as nat)]),
            forall|k: int| 0 <= k < i ==> #[trigger] x1337_row_read(out@[k], html@, k as nat),
        decreases rows@.len() - i,
    {
        let row = &rows[i];
        let name = match first_below(row, &name_sel) {
            Some(el) => {
                let href = text_or_empty(attr_of(&el, "href"));
                Some((text_of(&el), href))
            },
            None => None,
        };
        let seeds_text = text_or_empty(text_below_exec(row, &seeds_sel));
        let leeches_text = text_or_empty(text_below_exec(row, &leeches_sel));
        let size_text = match first_below(row, &size_sel) {
            Some(el) => first_text_of(&el),
            None => String::new(),
        };
        let r = X1337Row { name, seeds_text, leeches_text, size_text };
        proof {
            assert(rows@[i as int]@ == (html@, seq![(x1337_row_css(), i as nat)]));
            assert(x1337_row_read(r, html@, i as nat));
        }
        out.push(r);
        i += 1;
    }
    out
}

/// The results of a 1337x search page: those that `x1337_results` makes of
/// the first fifteen rows of the page's table, in order.
pub fn search_1337x_page(html: &str) -> (r: Vec<SearchResult>)
    ensures
        exists|rows: Seq<X1337Row>|
            #![trigger x1337_items(rows)] x1337_page_rows(rows, html@) && result_views(r@) == x1337_items(rows),
{
    let rows = x1337_rows(html);
    let ghost rv = rows@;
    let r = x1337_results(rows);
    proof {
        assert(first_n(rv, 15) == rv);
        assert(x1337_page_rows(rv, html@));
    }
    r
}

/// The selectors of TMDB's search page.
pub open spec fn tmdb_card_css() -> Seq<char> {
    "div.card"@
}

pub open spec fn tmdb_title_css() -> Seq<char> {
    "h2"@
}

pub open spec fn tmdb_link_css() -> Seq<char> {
    "a[href]"@
}

pub open spec fn tmdb_date_css() -> Seq<char> {
    "span.release_date"@
}

pub open spec fn tmdb_overview_css() -> Seq<char> {
    "div.overview, p.overview"@
}

pub open spec fn tmdb_img_css() -> Seq<char> {
    "img[src]"@
}

/// Whether all the selectors of TMDB's search page parse.
pub open spec fn tmdb_selectors_parse() -> bool {
    css_parses(tmdb_card_css()) && css_parses(tmdb_title_css()) && css_parses(tmdb_link_css())
        && css_parses(tmdb_date_css()) && css_parses(tmdb_overview_css()) && css_parses(tmdb_img_css())
}

/// What the `i`-th card of the page gives: the texts of its first title,
/// release date and overview, and the `href` of its first link and the
/// `src` of its first image (empty when missing), each `None` when the card
/// has no such element.
pub open spec fn tmdb_card_read(c: TmdbCard, html: Seq<char>, i: nat) -> bool {
    let p = seq![(tmdb_card_css(), i)];
    &&& opt_view(c.title_text) == text_below(html, p, tmdb_title_css())
    &&& opt_view(c.href) == attr_below(html, p, tmdb_link_css(), "href"@)
    &&& opt_view(c.date_text) == text_below(html, p, tmdb_date_css())
    &&& opt_view(c.img_src) == attr_below(html, p, tmdb_img_css(), "src"@)
    &&& opt_view(c.overview_text) == text_below(html, p, tmdb_overview_css())
}

/// What a page's first fifteen `div.card` elements give, in order (none
/// when a selector does not parse).
pub open spec fn tmdb_page_cards(cards: Seq<TmdbCard>, html: Seq<char>) -> bool {
    &&& cards.len() == if tmdb_selectors_parse() {
        at_most(page_matches(html, tmdb_card_css()), 15)
    } else {
        0
    }
    &&& forall|i: int| 0 <= i < cards.len() ==> #[trigger] tmdb_card_read(cards[i], html, i as nat)
}

/// The cards of TMDB's search page, the first fifteen.
pub fn tmdb_cards(html: &str) -> (cards: Vec<TmdbCard>)
    ensures
        cards@.len() <= 15,
        tmdb_selectors_parse() ==> cards@.len() == at_most(page_matches(html@, tmdb_card_css()), 15),
        !tmdb_selectors_parse() ==> cards@.len() == 0,
        forall|i: int| 0 <= i < cards@.len() ==> #[trigger] tmdb_card_read(cards@[i], html@, i as nat),
{
    let mut out: Vec<TmdbCard> = Vec::new();
    let doc = parse_document(html);
    let card_sel = match parse_selector("div.card") {
        Some(s) => s,
        None => return out,
    };
    let title_sel = match parse_selector("h2") {
        Some(s) => s,
        None => return out,
    };
    let link_sel = match parse_selector("a[href]") {
        Some(s) => s,
        None => return out,
    };
    let date_sel = match parse_selector("span.release_date") {
        Some(s) => s,
        None => return out,
    };
    let overview_sel = match parse_selector("div.overview, p.overview") {
        Some(s) => s,
        None => return out,
    };
    let img_sel = match parse_selector("img[src]") {
        Some(s) => s,
        None => return out,
    };
    let cards = select_in_page(&doc, &card_sel);
    let mut i: usize = 0;
    while i < cards.len() && i < 15
        invariant
            out@.len() == i,
            i <= 15,
            i <= cards@.len(),
            doc@ == html@,
            card_sel@ == tmdb_card_css(),
            title_sel@ == tmdb_title_css(),
            link_sel@ == tmdb_link_css(),
            date_sel@ == tmdb_date_css(),
            overview_sel@ == tmdb_overview_css(),
            img_sel@ == tmdb_img_css(),
            cards@.len() == page_matches(doc@, card_sel@),
            forall|k: int| 0 <= k < cards@.len() ==> #[trigger] cards@[k]@ == (doc@, seq![(card_sel@, k as nat)]),
            forall|k: int| 0 <= k < i ==> #[trigger] tmdb_card_read(out@[k], html@, k as nat),
        decreases cards@.len() - i,
    {
        let card = &cards[i];
        let title_text = text_below_exec(card, &title_sel);
        let href = attr_below_exec(card, &link_sel, "href");
        let date_text = text_below_exec(card, &date_sel);
        let img_src = attr_below_exec(card, &img_sel, "src");
        let overview_text = text_below_exec(card, &overview_sel);
        let c = TmdbCard { title_text, href, date_text, img_src, overview_text };
        proof {
            assert(cards@[i as int]@ == (html@, seq![(tmdb_card_css(), i as nat)]));
            assert(tmdb_card_read(c, html@, i as nat));
        }
        out.push(c);
        i += 1;
    }
    out
}

/// The items of a TMDB search page: those that `tmdb_items` makes of the
/// page's first fifteen cards, in order.
pub fn parse_tmdb_search(html: &str) -> (r: Vec<MetadataItem>)
    ensures
        exists|cards: Seq<TmdbCard>|
            #![trigger card_items(cards)] tmdb_page_cards(cards, html@) && item_views(r@) == card_items(cards),
{
    let cards = tmdb_cards(html);
    let ghost cv = cards@;
    let r = tmdb_items(cards);
    proof {
        assert(first_n(cv, 15) == cv);
        assert(tmdb_page_cards(cv, html@));
    }
    r
}

/// The selector of a detail page's magnet links.
pub open spec fn magnet_css() -> Seq<char> {
    "a[href^='magnet:?']"@
}

/// The magnet link of a 1337x detail page: the `href` of its first link that
/// starts with `magnet:?`, or `None` when there is none.
pub open spec fn magnet_in_page(html: Seq<char>) -> Option<Seq<char>> {
    if css_parses(magnet_css()) && page_matches(html, magnet_css()) > 0 {
        element_attr(html, seq![(magnet_css(), 0nat)], "href"@)
    } else {
        None
    }
}

/// The magnet link of a 1337x detail page: the `href` of its first link
/// that starts with `magnet:?`, or `None` when there is none.
pub fn magnet_from_detail_page(html: &str) -> (r: Option<String>)
    ensures
        opt_view(r) == magnet_in_page(html@),
{
    let doc = parse_document(html);
    let sel = match parse_selector("a[href^='magnet:?']") {
        Some(s) => s,
        None => return None,
    };
    let links = select_in_page(&doc, &sel);
    if links.len() == 0 {
        return None;
    }
    proof {
        assert(links@[0]@ == (html@, seq![(magnet_css(), 0nat)]));
    }
    attr_of(&links[0], "href")
}

} // verus!
