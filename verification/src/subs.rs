//! Subtitle search through the OpenSubtitles proxy: the query URL, the
//! results of its answer, and the cache of answers by query.

use vstd::prelude::*;
use crate::search::{first_n, opt_view};
use crate::table::Table;
use crate::text::{chars_of, push_all};
use crate::trusted::{alphanumeric, is_alphanumeric, lowercase, lowercase_of, string_of};

verus! {

/// A subtitle that the search found.
#[derive(Debug)]
pub struct SubtitleResult {
    pub filename: String,
    pub language: String,
    pub download_url: String,
    pub download_path: Option<String>,
    pub format: String,
}

/// A subtitle result as plain values.
pub struct SubtitleView {
    pub filename: Seq<char>,
    pub language: Seq<char>,
    pub download_url: Seq<char>,
    pub download_path: Option<Seq<char>>,
    pub format: Seq<char>,
}

impl View for SubtitleResult {
    type V = SubtitleView;

    open spec fn view(&self) -> SubtitleView {
        SubtitleView {
            filename: self.filename@,
            language: self.language@,
            download_url: self.download_url@,
            download_path: opt_view(self.download_path),
            format: self.format@,
        }
    }
}

/// The results held by a vector.
pub open spec fn subtitle_views(v: Seq<SubtitleResult>) -> Seq<SubtitleView> {
    v.map_values(|r: SubtitleResult| r@)
}

/// A subtitle in the proxy's answer.
#[derive(Debug)]
pub struct OsResult {
    pub sub_file_name: String,
    pub sub_language_i_d: String,
    pub sub_download_link: String,
    pub sub_format: String,
}

/// The cache key of a search: the language, `:`, and the lowercased query.
pub open spec fn cache_key_of(query: Seq<char>, lang: Seq<char>) -> Seq<char> {
    lang + seq![':'] + lowercase_of(query)
}

/// The cache key of a subtitle search.
pub fn cache_key(query: &str, lang: &str) -> (r: String)
    ensures
        r@ == cache_key_of(query@, lang@),
{
    let mut out = chars_of(lang);
    out.push(':');
    let low = lowercase(query);
    push_all(&mut out, chars_of(low.as_str()).as_slice());
    string_of(out.as_slice())
}

/// A query as the proxy's path takes it: letters and digits stay, anything
/// else becomes `-`.
pub open spec fn path_query(query: Seq<char>) -> Seq<char> {
    query.map_values(|c: char| if alphanumeric(c) { c } else { '-' })
}

/// The proxy's search URL for a query and a language.
pub open spec fn subtitle_search_url_of(query: Seq<char>, lang: Seq<char>) -> Seq<char> {
    "http://127.0.0.1:9191/search/query-"@ + path_query(query) + "/sublanguageid-"@ + lang
}

/// The proxy's search URL for a query and a language.
pub fn subtitle_search_url(query: &str, lang: &str) -> (r: String)
    ensures
        r@ == subtitle_search_url_of(query@, lang@),
{
    let q = chars_of(query);
    let mut out = chars_of("http://127.0.0.1:9191/search/query-");
    let ghost base = out@;
    let mut i: usize = 0;
    while i < q.len()
        invariant
            i <= q@.len(),
            out@ == base + path_query(q@.take(i as int)),
        decreases q@.len() - i,
    {
        let c = q[i];
        out.push(if is_alphanumeric(c) {
            c
        } else {
            '-'
        });
        i += 1;
        proof {
            assert(path_query(q@.take(i as int)) =~= path_query(q@.take(i - 1)).push(
                if alphanumeric(c) {
                    c
                } else {
                    '-'
                },
            ));
        }
    }
    proof {
        assert(q@.take(i as int) =~= q@);
    }
    push_all(&mut out, chars_of("/sublanguageid-").as_slice());
    push_all(&mut out, chars_of(lang).as_slice());
    string_of(out.as_slice())
}

/// The result for an entry of the proxy's answer.
pub open spec fn subtitle_item(r: OsResult) -> SubtitleView {
    SubtitleView {
        filename: r.sub_file_name@,
        language: r.sub_language_i_d@,
        download_url: r.sub_download_link@,
        download_path: None,
        format: r.sub_format@,
    }
}

/// The results of the proxy's answer: its first ten entries.
pub fn subtitle_results(results: Vec<OsResult>) -> (r: Vec<SubtitleResult>)
    ensures
        subtitle_views(r@) == first_n(results@, 10).map_values(|x: OsResult| subtitle_item(x)),
{
    let ghost all = results@;
    let ghost used = first_n(results@, 10);
    let mut rest = results;
    let mut out: Vec<SubtitleResult> = Vec::new();
    let n: usize = if rest.len() < 10 {
        rest.len()
    } else {
        10
    };
    let mut k: usize = 0;
    proof {
        assert(used.len() == n);
        assert(subtitle_views(out@) =~= used.take(0).map_values(|x: OsResult| subtitle_item(x)));
    }
    while k < n
        invariant
            n == used.len(),
            n <= all.len(),
            used == first_n(all, 10),
            k <= n,
            rest@ == all.skip(k as int),
            subtitle_views(out@) == used.take(k as int).map_values(|x: OsResult| subtitle_item(x)),
        decreases n - k,
    {
        proof {
            assert(rest@[0] == all[k as int]);
            assert(used[k as int] == all[k as int]);
        }
        let x = rest.remove(0);
        proof {
            assert(rest@ =~= all.skip(k + 1));
        }
        let ghost prev = subtitle_views(out@);
        let r = SubtitleResult {
            filename: x.sub_file_name,
            language: x.sub_language_i_d,
            download_url: x.sub_download_link,
            download_path: None,
            format: x.sub_format,
        };
        out.push(r);
        proof {
            assert(subtitle_views(out@) =~= prev.push(r@));
            assert(used.take(k + 1).map_values(|x: OsResult| subtitle_item(x)) =~= used.take(
                k as int,
            ).map_values(|x: OsResult| subtitle_item(x)).push(subtitle_item(used[k as int])));
        }
        k += 1;
    }
    proof {
        assert(used.take(n as int) =~= used);
    }
    out
}

/// A copy of a subtitle result.
pub fn copy_result(r: &SubtitleResult) -> (c: SubtitleResult)
    ensures
        c == *r,
{
    SubtitleResult {
        filename: r.filename.clone(),
        language: r.language.clone(),
        download_url: r.download_url.clone(),
        download_path: match &r.download_path {
            Some(p) => Some(p.clone()),
            None => None,
        },
        format: r.format.clone(),
    }
}

/// A copy of a list of subtitle results.
pub fn copy_results(v: &Vec<SubtitleResult>) -> (c: Vec<SubtitleResult>)
    ensures
        c@ == v@,
{
    let mut out: Vec<SubtitleResult> = Vec::new();
    let mut i: usize = 0;
    while i < v.len()
        invariant
            i <= v@.len(),
            out@ == v@.take(i as int),
        decreases v@.len() - i,
    {
        out.push(copy_result(&v[i]));
        i += 1;
        proof {
            assert(out@ =~= v@.take(i as int));
        }
    }
    proof {
        assert(v@.take(i as int) =~= v@);
    }
    out
}

/// What the cache has for a search.
#[derive(Debug)]
pub enum CacheLookup {
    /// The answer of an earlier search.
    Hit(Vec<SubtitleResult>),
    /// Nothing yet; the key under which to store the answer.
    Miss(String),
}

/// Answers of earlier searches, by cache key.
pub struct SubsCache {
    table: Table<Vec<SubtitleResult>>,
}

impl SubsCache {
    /// The cached answers by key.
    pub closed spec fn answers(&self) -> Map<Seq<char>, Seq<SubtitleResult>> {
        self.table.map()
    }

    /// An empty cache.
    pub fn new() -> (r: SubsCache)
        ensures
            r.answers() == Map::<Seq<char>, Seq<SubtitleResult>>::empty(),
    {
        SubsCache { table: Table::new() }
    }

    /// A copy of the cached answer for a key, if there is one.
    pub fn lookup(&self, key: &str) -> (r: Option<Vec<SubtitleResult>>)
        ensures
            match r {
                Some(v) => self.answers().contains_key(key@) && self.answers()[key@] == v@,
                None => !self.answers().contains_key(key@),
            },
    {
        match self.table.get(key) {
            Some(v) => Some(copy_results(v)),
            None => None,
        }
    }

    /// Records the answer for a key, replacing any earlier one.
    pub fn store(&mut self, key: String, results: Vec<SubtitleResult>)
        ensures
            final(self).answers() == old(self).answers().insert(key@, results@),
    {
        self.table.put(key, results)
    }

    /// The first step of a subtitle search: the answer cached for the
    /// query's key (`cache_key`), or, on a miss, the key under which the
    /// fetched answer is to be stored.
    pub fn cached(&self, query: &str, lang: &str) -> (r: CacheLookup)
        ensures
            ({
                let key = cache_key_of(query@, lang@);
                match r {
                    CacheLookup::Hit(v) => self.answers().contains_key(key) && self.answers()[key] == v@,
                    CacheLookup::Miss(k) => !self.answers().contains_key(key) && k@ == key,
                }
            }),
    {
        let key = cache_key(query, lang);
        match self.lookup(key.as_str()) {
            Some(v) => CacheLookup::Hit(v),
            None => CacheLookup::Miss(key),
        }
    }

    /// How many answers are cached.
    pub fn len(&self) -> (n: usize)
        ensures
            n == self.answers().len(),
    {
        self.table.len()
    }
}

/// Law: once the answer of a search is stored under its key, a search for
/// the same query and language finds exactly that answer, and the answers
/// of other keys are as they were.
pub proof fn law_cache_returns_stored(
    answers: Map<Seq<char>, Seq<SubtitleResult>>,
    query: Seq<char>,
    lang: Seq<char>,
    results: Seq<SubtitleResult>,
    other: Seq<char>,
)
    requires
        other != cache_key_of(query, lang),
    ensures
        answers.insert(cache_key_of(query, lang), results).contains_key(cache_key_of(query, lang)),
        answers.insert(cache_key_of(query, lang), results)[cache_key_of(query, lang)] == results,
        answers.insert(cache_key_of(query, lang), results).contains_key(other) == answers.contains_key(other),
        answers.contains_key(other) ==> answers.insert(cache_key_of(query, lang), results)[other]
            == answers[other],
{
}

} // verus!
