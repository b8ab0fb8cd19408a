//! Text primitives over character sequences, each with the meaning that the
//! corresponding `str` operation of std has.

use vstd::prelude::*;

verus! {

/// Index of the first `c` in `s`, or `s.len()` when `s` holds no `c`.
pub open spec fn first_pos(s: Seq<char>, c: char) -> nat
    decreases s.len(),
{
    if s.len() == 0 {
        0
    } else if s[0] == c {
        0
    } else {
        1 + first_pos(s.drop_first(), c)
    }
}

pub proof fn lemma_first_pos(s: Seq<char>, c: char)
    ensures
        first_pos(s, c) <= s.len(),
        forall|i: int| 0 <= i < first_pos(s, c) ==> s[i] != c,
        first_pos(s, c) < s.len() ==> s[first_pos(s, c) as int] == c,
    decreases s.len(),
{
    if s.len() > 0 && s[0] != c {
        lemma_first_pos(s.drop_first(), c);
        assert forall|i: int| 0 <= i < first_pos(s, c) implies s[i] != c by {
            if i > 0 {
                assert(s[i] == s.drop_first()[i - 1]);
            }
        }
    }
}

/// `first_pos` is the only position before which no `c` occurs and at which
/// `c` occurs or the sequence ends.
pub proof fn lemma_first_pos_unique(s: Seq<char>, c: char, p: int)
    requires
        0 <= p <= s.len(),
        forall|i: int| 0 <= i < p ==> s[i] != c,
        p < s.len() ==> s[p] == c,
    ensures
        first_pos(s, c) == p,
    decreases s.len(),
{
    if s.len() > 0 && p > 0 {
        assert forall|i: int| 0 <= i < p - 1 implies s.drop_first()[i] != c by {
            assert(s.drop_first()[i] == s[i + 1]);
        }
        if p - 1 < s.drop_first().len() {
            assert(s.drop_first()[p - 1] == s[p]);
        }
        lemma_first_pos_unique(s.drop_first(), c, p - 1);
    }
}

/// The pieces of `s` between occurrences of `c`, as `str::split` yields them.
pub open spec fn split_char(s: Seq<char>, c: char) -> Seq<Seq<char>>
    decreases s.len(),
{
    let p = first_pos(s, c);
    if p >= s.len() {
        seq![s]
    } else {
        seq![s.take(p as int)] + split_char(s.skip(p + 1 as int), c)
    }
}

/// The last piece of `a`, `c`, `b` split at `c` is `b`, when `b` holds no `c`.
pub proof fn lemma_split_last(a: Seq<char>, b: Seq<char>, c: char)
    requires
        forall|i: int| 0 <= i < b.len() ==> b[i] != c,
    ensures
        split_char(a + seq![c] + b, c).last() == b,
    decreases a.len(),
{
    let s = a + seq![c] + b;
    lemma_first_pos(s, c);
    let p = first_pos(s, c) as int;
    assert(s[a.len() as int] == c);
    assert(p < s.len());
    assert(split_char(s, c) == seq![s.take(p)] + split_char(s.skip(p + 1), c));
    if p < a.len() {
        assert(s.skip(p + 1) =~= a.skip(p + 1) + seq![c] + b);
        lemma_split_last(a.skip(p + 1), b, c);
        lemma_split_nonempty(s.skip(p + 1), c);
    } else {
        assert(s.skip(p + 1) =~= b);
        lemma_first_pos_unique(b, c, b.len() as int);
        assert(split_char(b, c) == seq![b]);
    }
}

/// The pieces that `str::splitn(n, c)` yields: at most `n`, the last one
/// holding the rest of the text unsplit.
pub open spec fn splitn_char(s: Seq<char>, c: char, n: nat) -> Seq<Seq<char>>
    decreases s.len(),
{
    if n == 0 {
        seq![]
    } else if n == 1 {
        seq![s]
    } else {
        let p = first_pos(s, c);
        if p >= s.len() {
            seq![s]
        } else {
            seq![s.take(p as int)] + splitn_char(s.skip(p + 1 as int), c, (n - 1) as nat)
        }
    }
}

/// `str::split` yields at least one piece.
pub proof fn lemma_split_nonempty(s: Seq<char>, c: char)
    ensures
        split_char(s, c).len() >= 1,
    decreases s.len(),
{
    let p = first_pos(s, c);
    if p < s.len() {
        lemma_split_nonempty(s.skip(p + 1 as int), c);
    }
}

/// One trailing carriage return removed, if there is one.
pub open spec fn strip_cr(s: Seq<char>) -> Seq<char> {
    if s.len() > 0 && s.last() == '\r' {
        s.drop_last()
    } else {
        s
    }
}

/// The lines of `s` as `str::lines` yields them: split at `\n`, a line that
/// ends in `\n` loses one `\r` before it, and a final `\n` starts no line.
pub open spec fn lines_of(s: Seq<char>) -> Seq<Seq<char>>
    decreases s.len(),
{
    if s.len() == 0 {
        seq![]
    } else {
        let p = first_pos(s, '\n');
        if p >= s.len() {
            seq![s]
        } else {
            seq![strip_cr(s.take(p as int))] + lines_of(s.skip(p + 1 as int))
        }
    }
}

/// The character sequences held by a vector of pieces.
pub open spec fn views(r: Seq<Vec<char>>) -> Seq<Seq<char>> {
    r.map_values(|x: Vec<char>| x@)
}

/// Collects the characters of a string slice, in order.
pub fn chars_of(s: &str) -> (v: Vec<char>)
    ensures
        v@ == s@,
{
    let mut v: Vec<char> = Vec::new();
    for c in it: s.chars()
        invariant
            v@ == it.seq().take(it.index() as int),
            it.seq() == s@,
    {
        v.push(c);
    }
    v
}

/// Appends `piece` to `out`.
pub fn push_all(out: &mut Vec<char>, piece: &[char])
    ensures
        final(out)@ == old(out)@ + piece@,
{
    let ghost start = out@;
    let mut i: usize = 0;
    while i < piece.len()
        invariant
            i <= piece@.len(),
            out@ == start + piece@.take(i as int),
        decreases piece@.len() - i,
    {
        out.push(piece[i]);
        i += 1;
        proof {
            assert(out@ =~= start + piece@.take(i as int));
        }
    }
    proof {
        assert(piece@.take(i as int) =~= piece@);
    }
}

/// A copy of `v[start..end]`.
pub fn copy_range(v: &[char], start: usize, end: usize) -> (r: Vec<char>)
    requires
        start <= end <= v@.len(),
    ensures
        r@ == v@.subrange(start as int, end as int),
{
    let mut r: Vec<char> = Vec::new();
    let mut i = start;
    while i < end
        invariant
            start <= i <= end <= v@.len(),
            r@ == v@.subrange(start as int, i as int),
        decreases end - i,
    {
        r.push(v[i]);
        i += 1;
        assert(r@ =~= v@.subrange(start as int, i as int));
    }
    r
}

/// The position of the first `c` at or after `start`, or `v.len()`.
pub fn find_char(v: &[char], start: usize, c: char) -> (p: usize)
    requires
        start <= v@.len(),
    ensures
        p == start + first_pos(v@.skip(start as int), c),
        start <= p <= v@.len(),
{
    let mut i = start;
    while i < v.len() && v[i] != c
        invariant
            start <= i <= v@.len(),
            forall|j: int| start <= j < i ==> v@[j] != c,
        decreases v@.len() - i,
    {
        i += 1;
    }
    proof {
        let s = v@.skip(start as int);
        assert forall|j: int| 0 <= j < i - start implies s[j] != c by {
            assert(s[j] == v@[j + start]);
        }
        if i - start < s.len() {
            assert(s[i - start] == v@[i as int]);
        }
        lemma_first_pos_unique(s, c, i - start);
    }
    i
}

/// `str::split` on a single character.
pub fn split_chars(v: &[char], c: char) -> (r: Vec<Vec<char>>)
    ensures
        views(r@) == split_char(v@, c),
{
    let mut r: Vec<Vec<char>> = Vec::new();
    let mut start: usize = 0;
    proof {
        assert(views(r@) + split_char(v@.skip(0), c) =~= split_char(v@, c)) by {
            assert(v@.skip(0) =~= v@);
        }
    }
    loop
        invariant
            start <= v@.len(),
            views(r@) + split_char(v@.skip(start as int), c) == split_char(v@, c),
        decreases v@.len() - start,
    {
        let p = find_char(v, start, c);
        let piece = copy_range(v, start, p);
        let ghost rest = v@.skip(start as int);
        let ghost prev = views(r@);
        proof {
            assert(rest.take((p - start) as int) =~= piece@);
        }
        r.push(piece);
        proof {
            assert(views(r@) =~= prev.push(piece@));
        }
        if p == v.len() {
            proof {
                assert(rest =~= piece@);
                assert(prev + split_char(rest, c) =~= views(r@));
            }
            return r;
        }
        proof {
            assert(rest.skip((p - start) + 1) =~= v@.skip(p + 1));
            assert(split_char(rest, c) == seq![piece@] + split_char(v@.skip(p + 1), c));
            assert(prev + split_char(rest, c) =~= views(r@) + split_char(v@.skip(p + 1), c));
        }
        start = p + 1;
    }
}

/// `str::splitn(n, c)`.
pub fn splitn_chars(v: &[char], c: char, n: usize) -> (r: Vec<Vec<char>>)
    requires
        n >= 1,
    ensures
        views(r@) == splitn_char(v@, c, n as nat),
{
    let mut r: Vec<Vec<char>> = Vec::new();
    let mut start: usize = 0;
    let mut left: usize = n;
    proof {
        assert(v@.skip(0) =~= v@);
        assert(views(r@) + splitn_char(v@.skip(0), c, n as nat) =~= splitn_char(v@, c, n as nat));
    }
    loop
        invariant
            start <= v@.len(),
            1 <= left <= n,
            views(r@) + splitn_char(v@.skip(start as int), c, left as nat) == splitn_char(
                v@,
                c,
                n as nat,
            ),
        decreases v@.len() - start,
    {
        let ghost rest = v@.skip(start as int);
        let ghost prev = views(r@);
        if left == 1 {
            let piece = copy_range(v, start, v.len());
            r.push(piece);
            proof {
                assert(rest =~= piece@);
                assert(views(r@) =~= prev.push(piece@));
                assert(prev + splitn_char(rest, c, 1) =~= views(r@));
            }
            return r;
        }
        let p = find_char(v, start, c);
        let piece = copy_range(v, start, p);
        proof {
            assert(rest.take((p - start) as int) =~= piece@);
        }
        r.push(piece);
        proof {
            assert(views(r@) =~= prev.push(piece@));
        }
        if p == v.len() {
            proof {
                assert(rest =~= piece@);
                assert(prev + splitn_char(rest, c, left as nat) =~= views(r@));
            }
            return r;
        }
        proof {
            assert(rest.skip((p - start) + 1) =~= v@.skip(p + 1));
            assert(splitn_char(rest, c, left as nat) == seq![piece@] + splitn_char(
                v@.skip(p + 1),
                c,
                (left - 1) as nat,
            ));
            assert(prev + splitn_char(rest, c, left as nat) =~= views(r@) + splitn_char(
                v@.skip(p + 1),
                c,
                (left - 1) as nat,
            ));
        }
        start = p + 1;
        left = left - 1;
    }
}

/// `str::lines`.
pub fn lines(v: &[char]) -> (r: Vec<Vec<char>>)
    ensures
        views(r@) == lines_of(v@),
{
    let mut r: Vec<Vec<char>> = Vec::new();
    let mut start: usize = 0;
    proof {
        assert(v@.skip(0) =~= v@);
        assert(views(r@) + lines_of(v@.skip(0)) =~= lines_of(v@));
    }
    loop
        invariant
            start <= v@.len(),
            views(r@) + lines_of(v@.skip(start as int)) == lines_of(v@),
        decreases v@.len() - start,
    {
        let ghost rest = v@.skip(start as int);
        let ghost prev = views(r@);
        if start == v.len() {
            proof {
                assert(rest.len() == 0);
                assert(prev + lines_of(rest) =~= prev);
            }
            return r;
        }
        let p = find_char(v, start, '\n');
        if p == v.len() {
            let piece = copy_range(v, start, p);
            r.push(piece);
            proof {
                assert(rest =~= piece@);
                assert(views(r@) =~= prev.push(piece@));
                assert(prev + lines_of(rest) =~= views(r@));
            }
            return r;
        }
        let end = if p > start && v[p - 1] == '\r' {
            p - 1
        } else {
            p
        };
        let piece = copy_range(v, start, end);
        proof {
            let line = rest.take((p - start) as int);
            if p > start && v@[p - 1] == '\r' {
                assert(line.last() == v@[p - 1]);
                assert(strip_cr(line) =~= piece@);
            } else {
                if line.len() > 0 {
                    assert(line.last() == v@[p - 1]);
                }
                assert(strip_cr(line) =~= piece@);
            }
        }
        r.push(piece);
        proof {
            assert(views(r@) =~= prev.push(piece@));
            assert(rest.skip((p - start) + 1) =~= v@.skip(p + 1));
            assert(prev + lines_of(rest) =~= views(r@) + lines_of(v@.skip(p + 1)));
        }
        start = p + 1;
    }
}

/// The characters that `char::is_whitespace` accepts: those with the Unicode
/// `White_Space` property.
pub open spec fn is_white(c: char) -> bool {
    ||| c == '\t'
    ||| c == '\n'
    ||| c == '\u{0B}'
    ||| c == '\u{0C}'
    ||| c == '\r'
    ||| c == ' '
    ||| c == '\u{85}'
    ||| c == '\u{A0}'
    ||| c == '\u{1680}'
    ||| ('\u{2000}' <= c && c <= '\u{200A}')
    ||| c == '\u{2028}'
    ||| c == '\u{2029}'
    ||| c == '\u{202F}'
    ||| c == '\u{205F}'
    ||| c == '\u{3000}'
}

/// `char::is_whitespace`.
pub fn white(c: char) -> (b: bool)
    ensures
        b == is_white(c),
{
    c == '\t' || c == '\n' || c == '\u{0B}' || c == '\u{0C}' || c == '\r' || c == ' ' || c
        == '\u{85}' || c == '\u{A0}' || c == '\u{1680}' || ('\u{2000}' <= c && c <= '\u{200A}')
        || c == '\u{2028}' || c == '\u{2029}' || c == '\u{202F}' || c == '\u{205F}' || c
        == '\u{3000}'
}

/// `s` without its leading whitespace.
pub open spec fn trim_start(s: Seq<char>) -> Seq<char>
    decreases s.len(),
{
    if s.len() > 0 && is_white(s[0]) {
        trim_start(s.drop_first())
    } else {
        s
    }
}

/// `s` without its trailing whitespace.
pub open spec fn trim_end(s: Seq<char>) -> Seq<char>
    decreases s.len(),
{
    if s.len() > 0 && is_white(s.last()) {
        trim_end(s.drop_last())
    } else {
        s
    }
}

/// `str::trim`: whitespace removed at both ends.
pub open spec fn trim(s: Seq<char>) -> Seq<char> {
    trim_end(trim_start(s))
}

proof fn lemma_trim_start_at(s: Seq<char>, k: int)
    requires
        0 <= k <= s.len(),
        forall|i: int| 0 <= i < k ==> is_white(s[i]),
        k < s.len() ==> !is_white(s[k]),
    ensures
        trim_start(s) == s.skip(k),
    decreases s.len(),
{
    if k == 0 {
        assert(s.skip(0) =~= s);
    } else {
        assert forall|i: int| 0 <= i < k - 1 implies is_white(s.drop_first()[i]) by {
            assert(s.drop_first()[i] == s[i + 1]);
        }
        if k - 1 < s.drop_first().len() {
            assert(s.drop_first()[k - 1] == s[k]);
        }
        lemma_trim_start_at(s.drop_first(), k - 1);
        assert(s.drop_first().skip(k - 1) =~= s.skip(k));
    }
}

proof fn lemma_trim_end_at(s: Seq<char>, k: int)
    requires
        0 <= k <= s.len(),
        forall|i: int| k <= i < s.len() ==> is_white(s[i]),
        k > 0 ==> !is_white(s[k - 1]),
    ensures
        trim_end(s) == s.take(k),
    decreases s.len(),
{
    if k == s.len() {
        assert(s.take(k) =~= s);
    } else {
        assert forall|i: int| k <= i < s.drop_last().len() implies is_white(s.drop_last()[i]) by {
            assert(s.drop_last()[i] == s[i]);
        }
        if k > 0 {
            assert(s.drop_last()[k - 1] == s[k - 1]);
        }
        lemma_trim_end_at(s.drop_last(), k);
        assert(s.drop_last().take(k) =~= s.take(k));
    }
}

/// `str::trim`.
pub fn trim_chars(v: &[char]) -> (r: Vec<char>)
    ensures
        r@ == trim(v@),
{
    let mut a: usize = 0;
    while a < v.len() && white(v[a])
        invariant
            a <= v@.len(),
            forall|i: int| 0 <= i < a ==> is_white(v@[i]),
        decreases v@.len() - a,
    {
        a += 1;
    }
    let mut b: usize = v.len();
    while b > a && white(v[b - 1])
        invariant
            a <= b <= v@.len(),
            forall|i: int| b <= i < v@.len() ==> is_white(v@[i]),
        decreases b,
    {
        b -= 1;
    }
    proof {
        lemma_trim_start_at(v@, a as int);
        let t = v@.skip(a as int);
        assert forall|i: int| (b - a) <= i < t.len() implies is_white(t[i]) by {
            assert(t[i] == v@[i + a]);
        }
        if b > a {
            assert(t[b - a - 1] == v@[b - 1]);
        }
        lemma_trim_end_at(t, (b - a) as int);
        assert(t.take((b - a) as int) =~= v@.subrange(a as int, b as int));
    }
    copy_range(v, a, b)
}

/// `s` without its leading `c` characters (`str::trim_start_matches(c)`).
pub open spec fn trim_start_char(s: Seq<char>, c: char) -> Seq<char>
    decreases s.len(),
{
    if s.len() > 0 && s[0] == c {
        trim_start_char(s.drop_first(), c)
    } else {
        s
    }
}

proof fn lemma_trim_start_char_at(s: Seq<char>, c: char, k: int)
    requires
        0 <= k <= s.len(),
        forall|i: int| 0 <= i < k ==> s[i] == c,
        k < s.len() ==> s[k] != c,
    ensures
        trim_start_char(s, c) == s.skip(k),
    decreases s.len(),
{
    if k == 0 {
        assert(s.skip(0) =~= s);
    } else {
        assert forall|i: int| 0 <= i < k - 1 implies s.drop_first()[i] == c by {
            assert(s.drop_first()[i] == s[i + 1]);
        }
        if k - 1 < s.drop_first().len() {
            assert(s.drop_first()[k - 1] == s[k]);
        }
        lemma_trim_start_char_at(s.drop_first(), c, k - 1);
        assert(s.drop_first().skip(k - 1) =~= s.skip(k));
    }
}

/// `str::trim_start_matches(c)`.
pub fn trim_start_chars(v: &[char], c: char) -> (r: Vec<char>)
    ensures
        r@ == trim_start_char(v@, c),
{
    let mut a: usize = 0;
    while a < v.len() && v[a] == c
        invariant
            a <= v@.len(),
            forall|i: int| 0 <= i < a ==> v@[i] == c,
        decreases v@.len() - a,
    {
        a += 1;
    }
    proof {
        lemma_trim_start_char_at(v@, c, a as int);
        assert(v@.skip(a as int) =~= v@.subrange(a as int, v@.len() as int));
    }
    copy_range(v, a, v.len())
}

/// `pat` occurs in `s` starting at index `i`.
pub open spec fn matches_at(s: Seq<char>, i: int, pat: Seq<char>) -> bool {
    0 <= i && i + pat.len() <= s.len() && s.subrange(i, i + pat.len()) == pat
}

/// `s` starts with `pat` (`str::starts_with`).
pub open spec fn starts_with(s: Seq<char>, pat: Seq<char>) -> bool {
    matches_at(s, 0, pat)
}

/// A text whose first character is not `c` does not start with `c`.
pub proof fn lemma_not_starting_with(s: Seq<char>, c: char)
    requires
        s.len() == 0 || s[0] != c,
    ensures
        !starts_with(s, seq![c]),
{
    if starts_with(s, seq![c]) {
        assert(s.subrange(0, 1)[0] == s[0]);
    }
}

/// `pat` occurs somewhere in `s` (`str::contains`).
pub open spec fn contains(s: Seq<char>, pat: Seq<char>) -> bool {
    exists|i: int| matches_at(s, i, pat)
}

/// Whether `pat` occurs in `v` at index `i`.
pub fn matches_at_exec(v: &[char], i: usize, pat: &[char]) -> (b: bool)
    ensures
        b == matches_at(v@, i as int, pat@),
{
    if i > v.len() || pat.len() > v.len() - i {
        return false;
    }
    let mut k: usize = 0;
    while k < pat.len()
        invariant
            i + pat@.len() <= v@.len(),
            i + pat.len() <= v.len(),
            k <= pat@.len(),
            forall|j: int| 0 <= j < k ==> v@[i + j] == pat@[j],
        decreases pat@.len() - k,
    {
        if v[i + k] != pat[k] {
            proof {
                assert(v@.subrange(i as int, i + pat@.len())[k as int] != pat@[k as int]);
            }
            return false;
        }
        k += 1;
    }
    proof {
        assert(v@.subrange(i as int, i + pat@.len()) =~= pat@);
    }
    true
}

/// `str::starts_with`.
pub fn starts_with_exec(v: &[char], pat: &[char]) -> (b: bool)
    ensures
        b == starts_with(v@, pat@),
{
    matches_at_exec(v, 0, pat)
}

/// `str::contains`.
pub fn contains_exec(v: &[char], pat: &[char]) -> (b: bool)
    ensures
        b == contains(v@, pat@),
{
    if pat.len() > v.len() {
        proof {
            assert forall|i: int| !matches_at(v@, i, pat@) by {}
        }
        return false;
    }
    let last = v.len() - pat.len();
    let mut i: usize = 0;
    loop
        invariant
            pat@.len() <= v@.len(),
            last == v@.len() - pat@.len(),
            i <= last,
            forall|j: int| 0 <= j < i ==> !matches_at(v@, j, pat@),
        decreases last - i,
    {
        if matches_at_exec(v, i, pat) {
            return true;
        }
        if i == last {
            proof {
                assert forall|j: int| !matches_at(v@, j, pat@) by {
                    if 0 <= j < i {
                    }
                }
            }
            return false;
        }
        i += 1;
    }
}

/// Every non-overlapping occurrence of `pat` replaced by `to`, scanning from
/// the front (`str::replace` with a non-empty pattern).
pub open spec fn replace_all(s: Seq<char>, pat: Seq<char>, to: Seq<char>) -> Seq<char>
    recommends
        pat.len() > 0,
    decreases s.len(),
{
    if s.len() == 0 {
        seq![]
    } else if pat.len() > 0 && matches_at(s, 0, pat) {
        to + replace_all(s.skip(pat.len() as int), pat, to)
    } else {
        seq![s[0]] + replace_all(s.drop_first(), pat, to)
    }
}

/// Replacing every `a` by `b` (another character) leaves no `a`.
pub proof fn lemma_replace_char_removes(s: Seq<char>, a: char, b: char)
    requires
        a != b,
    ensures
        forall|i: int| 0 <= i < replace_all(s, seq![a], seq![b]).len() ==> #[trigger] replace_all(
            s,
            seq![a],
            seq![b],
        )[i] != a,
    decreases s.len(),
{
    if s.len() > 0 {
        let r = replace_all(s, seq![a], seq![b]);
        if matches_at(s, 0, seq![a]) {
            lemma_replace_char_removes(s.skip(1), a, b);
            assert forall|i: int| 0 <= i < r.len() implies r[i] != a by {
                if i > 0 {
                    assert(r[i] == replace_all(s.skip(1), seq![a], seq![b])[i - 1]);
                }
            }
        } else {
            if s[0] == a {
                assert(s.subrange(0, 1) =~= seq![a]);
            }
            lemma_replace_char_removes(s.drop_first(), a, b);
            assert forall|i: int| 0 <= i < r.len() implies r[i] != a by {
                if i > 0 {
                    assert(r[i] == replace_all(s.drop_first(), seq![a], seq![b])[i - 1]);
                }
            }
        }
    }
}

proof fn lemma_matches_at_skip(s: Seq<char>, i: int, pat: Seq<char>)
    requires
        0 <= i <= s.len(),
    ensures
        matches_at(s.skip(i), 0, pat) == matches_at(s, i, pat),
{
    if i + pat.len() <= s.len() {
        assert(s.skip(i).subrange(0, pat.len() as int) =~= s.subrange(i, i + pat.len()));
    }
}

/// Whether `pat` starts `s.skip(i)` is whether it occurs in `s` at `i`.
pub proof fn lemma_matches_at_skip_pub(s: Seq<char>, i: int, pat: Seq<char>)
    requires
        0 <= i <= s.len(),
    ensures
        matches_at(s.skip(i), 0, pat) == matches_at(s, i, pat),
{
    lemma_matches_at_skip(s, i, pat);
}

/// `str::replace(pat, to)` for a non-empty `pat`.
pub fn replace_chars(v: &[char], pat: &[char], to: &[char]) -> (r: Vec<char>)
    requires
        pat@.len() > 0,
    ensures
        r@ == replace_all(v@, pat@, to@),
{
    let mut r: Vec<char> = Vec::new();
    let mut i: usize = 0;
    proof {
        assert(v@.skip(0) =~= v@);
        assert(r@ + replace_all(v@.skip(0), pat@, to@) =~= replace_all(v@, pat@, to@));
    }
    while i < v.len()
        invariant
            pat@.len() > 0,
            i <= v@.len(),
            r@ + replace_all(v@.skip(i as int), pat@, to@) == replace_all(v@, pat@, to@),
        decreases v@.len() - i,
    {
        let ghost rest = v@.skip(i as int);
        let ghost prev = r@;
        proof {
            lemma_matches_at_skip(v@, i as int, pat@);
        }
        if matches_at_exec(v, i, pat) {
            let mut k: usize = 0;
            while k < to.len()
                invariant
                    k <= to@.len(),
                    r@ == prev + to@.take(k as int),
                decreases to@.len() - k,
            {
                r.push(to[k]);
                k += 1;
                proof {
                    assert(r@ =~= prev + to@.take(k as int));
                }
            }
            proof {
                assert(to@.take(to@.len() as int) =~= to@);
                assert(rest.skip(pat@.len() as int) =~= v@.skip(i + pat@.len()));
            }
            i = i + pat.len();
        } else {
            r.push(v[i]);
            proof {
                assert(rest[0] == v@[i as int]);
                assert(rest.drop_first() =~= v@.skip(i + 1));
                assert(r@ + replace_all(v@.skip(i + 1), pat@, to@) =~= prev + replace_all(rest, pat@, to@));
            }
            i = i + 1;
        }
    }
    proof {
        assert(v@.skip(i as int) =~= Seq::<char>::empty());
        assert(r@ + replace_all(v@.skip(i as int), pat@, to@) =~= r@);
    }
    r
}

/// What remains of `s` once every run from an `open` character through the
/// next `close` character is removed; the markers themselves never remain.
/// `in_tag` says whether the text starts inside such a run.
pub open spec fn strip_tags(s: Seq<char>, open: char, close: char, in_tag: bool) -> Seq<char>
    decreases s.len(),
{
    if s.len() == 0 {
        seq![]
    } else if s[0] == open {
        strip_tags(s.drop_first(), open, close, true)
    } else if s[0] == close {
        strip_tags(s.drop_first(), open, close, false)
    } else if !in_tag {
        seq![s[0]] + strip_tags(s.drop_first(), open, close, in_tag)
    } else {
        strip_tags(s.drop_first(), open, close, in_tag)
    }
}

/// Removes every run from an `open` character through the next `close`.
pub fn strip_tag_chars(v: &[char], open: char, close: char) -> (r: Vec<char>)
    ensures
        r@ == strip_tags(v@, open, close, false),
{
    let mut r: Vec<char> = Vec::new();
    let mut in_tag = false;
    let mut i: usize = 0;
    proof {
        assert(v@.skip(0) =~= v@);
        assert(r@ + strip_tags(v@.skip(0), open, close, false) =~= strip_tags(v@, open, close, false));
    }
    while i < v.len()
        invariant
            i <= v@.len(),
            r@ + strip_tags(v@.skip(i as int), open, close, in_tag) == strip_tags(v@, open, close, false),
        decreases v@.len() - i,
    {
        let c = v[i];
        let ghost rest = v@.skip(i as int);
        let ghost prev = r@;
        proof {
            assert(rest[0] == c);
            assert(rest.drop_first() =~= v@.skip(i + 1));
        }
        if c == open {
            in_tag = true;
        } else if c == close {
            in_tag = false;
        } else if !in_tag {
            r.push(c);
            proof {
                assert(r@ + strip_tags(v@.skip(i + 1), open, close, in_tag) =~= prev + strip_tags(rest, open, close, in_tag));
            }
        }
        i += 1;
    }
    proof {
        assert(v@.skip(i as int).len() == 0);
        assert(r@ + strip_tags(v@.skip(i as int), open, close, in_tag) =~= r@);
    }
    r
}

/// Whether two character sequences are equal.
pub fn same_chars(a: &[char], b: &[char]) -> (e: bool)
    ensures
        e == (a@ == b@),
{
    if a.len() != b.len() {
        return false;
    }
    let mut i: usize = 0;
    while i < a.len()
        invariant
            a@.len() == b@.len(),
            i <= a@.len(),
            forall|j: int| 0 <= j < i ==> a@[j] == b@[j],
        decreases a@.len() - i,
    {
        if a[i] != b[i] {
            return false;
        }
        i += 1;
    }
    proof {
        assert(a@ =~= b@);
    }
    true
}

/// Whether `a` spells out the text `lit`.
pub fn is_text(a: &[char], lit: &str) -> (e: bool)
    ensures
        e == (a@ == lit@),
{
    let l = chars_of(lit);
    same_chars(a, l.as_slice())
}

/// The decimal digit character for `d`.
pub open spec fn digit_char(d: nat) -> char {
    if d == 0 {
        '0'
    } else if d == 1 {
        '1'
    } else if d == 2 {
        '2'
    } else if d == 3 {
        '3'
    } else if d == 4 {
        '4'
    } else if d == 5 {
        '5'
    } else if d == 6 {
        '6'
    } else if d == 7 {
        '7'
    } else if d == 8 {
        '8'
    } else {
        '9'
    }
}

/// The decimal digit character for `d < 10`.
pub fn digit_chars_exec(d: u64) -> (c: char)
    requires
        d < 10,
    ensures
        c == digit_char(d as nat),
{
    if d == 0 {
        '0'
    } else if d == 1 {
        '1'
    } else if d == 2 {
        '2'
    } else if d == 3 {
        '3'
    } else if d == 4 {
        '4'
    } else if d == 5 {
        '5'
    } else if d == 6 {
        '6'
    } else if d == 7 {
        '7'
    } else if d == 8 {
        '8'
    } else {
        '9'
    }
}

/// The decimal representation of `n`, as `Display` writes an unsigned integer.
pub open spec fn decimal(n: nat) -> Seq<char>
    decreases n,
{
    if n < 10 {
        seq![digit_char(n)]
    } else {
        decimal(n / 10).push(digit_char(n % 10))
    }
}

/// The decimal representation of `n`.
pub fn decimal_chars(n: u128) -> (r: Vec<char>)
    ensures
        r@ == decimal(n as nat),
    decreases n,
{
    if n < 10 {
        let mut r: Vec<char> = Vec::new();
        r.push(digit_chars_exec(n as u64));
        proof {
            assert(r@ =~= seq![digit_char(n as nat)]);
        }
        r
    } else {
        let mut r = decimal_chars(n / 10);
        r.push(digit_chars_exec((n % 10) as u64));
        r
    }
}

/// `s` padded on the left with `fill` up to `width` characters, as the
/// formatting flag `{:fill>width}` does.
pub open spec fn pad_left(s: Seq<char>, width: nat, fill: char) -> Seq<char> {
    if s.len() >= width {
        s
    } else {
        Seq::new((width - s.len()) as nat, |i: int| fill) + s
    }
}

/// Pads `v` on the left with `fill` up to `width` characters.
pub fn pad_left_chars(v: &[char], width: usize, fill: char) -> (r: Vec<char>)
    ensures
        r@ == pad_left(v@, width as nat, fill),
{
    let mut r: Vec<char> = Vec::new();
    if v.len() < width {
        let n = width - v.len();
        let mut k: usize = 0;
        while k < n
            invariant
                k <= n,
                r@ == Seq::new(k as nat, |i: int| fill),
            decreases n - k,
        {
            r.push(fill);
            k += 1;
            proof {
                assert(r@ =~= Seq::new(k as nat, |i: int| fill));
            }
        }
    }
    let ghost pad = r@;
    let mut i: usize = 0;
    while i < v.len()
        invariant
            i <= v@.len(),
            r@ == pad + v@.take(i as int),
        decreases v@.len() - i,
    {
        r.push(v[i]);
        i += 1;
        proof {
            assert(r@ =~= pad + v@.take(i as int));
        }
    }
    proof {
        assert(v@.take(v@.len() as int) =~= v@);
        if v@.len() >= width {
            assert(pad =~= Seq::<char>::empty());
            assert(r@ =~= v@);
        }
    }
    r
}

/// An ASCII decimal digit.
pub open spec fn is_digit(c: char) -> bool {
    '0' <= c && c <= '9'
}

/// Every character of `s` is a decimal digit.
pub open spec fn all_digits(s: Seq<char>) -> bool {
    forall|i: int| 0 <= i < s.len() ==> is_digit(#[trigger] s[i])
}

/// The value of a decimal digit character.
pub open spec fn digit_value(c: char) -> nat {
    ((c as u32) - ('0' as u32)) as nat
}

/// The value of a sequence of decimal digits.
pub open spec fn digits_value(s: Seq<char>) -> nat
    decreases s.len(),
{
    if s.len() == 0 {
        0
    } else {
        digits_value(s.drop_last()) * 10 + digit_value(s.last())
    }
}

/// What `str::parse` gives for an unsigned integer type whose largest value is
/// `max`: an optional `+`, then at least one decimal digit and nothing else,
/// with a value that fits.
pub open spec fn parse_unsigned(s: Seq<char>, max: nat) -> Option<nat> {
    let d = if s.len() > 0 && s[0] == '+' {
        s.drop_first()
    } else {
        s
    };
    if d.len() == 0 || !all_digits(d) || digits_value(d) > max {
        None
    } else {
        Some(digits_value(d))
    }
}

proof fn lemma_digits_value_grows(s: Seq<char>, k: int)
    requires
        0 <= k <= s.len(),
    ensures
        digits_value(s.take(k)) <= digits_value(s),
    decreases s.len() - k,
{
    if k < s.len() {
        lemma_digits_value_grows(s, k + 1);
        assert(s.take(k + 1).drop_last() =~= s.take(k));
    } else {
        assert(s.take(k) =~= s);
    }
}

/// `str::parse::<u64>` (with `max == u64::MAX`) or `str::parse::<u32>`
/// (with `max == u32::MAX`).
pub fn parse_unsigned_chars(v: &[char], max: u64) -> (r: Option<u64>)
    ensures
        r matches Some(x) ==> parse_unsigned(v@, max as nat) == Some(x as nat),
        r is None ==> parse_unsigned(v@, max as nat) is None,
{
    let start: usize = if v.len() > 0 && v[0] == '+' {
        1
    } else {
        0
    };
    let ghost d = if v@.len() > 0 && v@[0] == '+' {
        v@.drop_first()
    } else {
        v@
    };
    proof {
        assert(d =~= v@.skip(start as int));
    }
    if start == v.len() {
        return None;
    }
    let mut acc: u64 = 0;
    let mut i: usize = start;
    while i < v.len()
        invariant
            start <= i <= v@.len(),
            d == v@.skip(start as int),
            d == (if v@.len() > 0 && v@[0] == '+' {
                v@.drop_first()
            } else {
                v@
            }),
            forall|j: int| 0 <= j < i - start ==> is_digit(#[trigger] d[j]),
            acc as nat == digits_value(d.take(i - start)),
            acc <= max,
        decreases v@.len() - i,
    {
        let c = v[i];
        proof {
            assert(d[i - start] == c);
        }
        if !('0' <= c && c <= '9') {
            proof {
                assert(!is_digit(d[i - start]));
                assert(!all_digits(d));
            }
            return None;
        }
        let dv = (c as u32 - '0' as u32) as u64;
        proof {
            assert(d.take(i - start + 1).drop_last() =~= d.take(i - start));
            assert(d.take(i - start + 1).last() == c);
        }
        if dv > max {
            proof {
                lemma_digits_value_grows(d, i - start + 1);
            }
            return None;
        }
        proof {
            assert(d.take(i - start + 1).drop_last() =~= d.take(i - start));
            assert(d.take(i - start + 1).last() == c);
        }
        if acc > (max - dv) / 10 {
            proof {
                assert(acc * 10 + dv > max) by (nonlinear_arith)
                    requires
                        acc > (max - dv) / 10,
                        dv <= max || dv > max,
                ;
                lemma_digits_value_grows(d, i - start + 1);
            }
            return None;
        }
        proof {
            assert(acc * 10 + dv <= max) by (nonlinear_arith)
                requires
                    acc <= (max - dv) / 10,
                    dv <= 9,
                    max >= dv,
            ;
        }
        acc = acc * 10 + dv;
        i += 1;
    }
    proof {
        assert(d.take(i - start) =~= d);
    }
    Some(acc)
}

/// The number of bytes that the UTF-8 encoding of `c` takes (`char::len_utf8`).
pub open spec fn char_width(c: char) -> nat {
    if (c as u32) < 0x80 {
        1
    } else if (c as u32) < 0x800 {
        2
    } else if (c as u32) < 0x10000 {
        3
    } else {
        4
    }
}

/// The length in bytes of the UTF-8 encoding of `s` (`str::len`).
pub open spec fn utf8_len(s: Seq<char>) -> nat
    decreases s.len(),
{
    if s.len() == 0 {
        0
    } else {
        utf8_len(s.drop_last()) + char_width(s.last())
    }
}

fn char_width_exec(c: char) -> (w: u64)
    ensures
        w == char_width(c),
{
    let u = c as u32;
    if u < 0x80 {
        1
    } else if u < 0x800 {
        2
    } else if u < 0x10000 {
        3
    } else {
        4
    }
}

proof fn lemma_utf8_len_grows(s: Seq<char>, k: int)
    requires
        0 <= k <= s.len(),
    ensures
        utf8_len(s.take(k)) <= utf8_len(s),
    decreases s.len() - k,
{
    if k < s.len() {
        lemma_utf8_len_grows(s, k + 1);
        assert(s.take(k + 1).drop_last() =~= s.take(k));
    } else {
        assert(s.take(k) =~= s);
    }
}

/// The UTF-8 length of `v`, or `cap` when that length is `cap` or more.
pub fn utf8_len_capped(v: &[char], cap: u64) -> (n: u64)
    ensures
        n == if utf8_len(v@) < cap {
            utf8_len(v@)
        } else {
            cap as nat
        },
{
    if cap == 0 {
        return 0;
    }
    let mut n: u64 = 0;
    let mut i: usize = 0;
    while i < v.len()
        invariant
            i <= v@.len(),
            n == utf8_len(v@.take(i as int)),
            n < cap,
        decreases v@.len() - i,
    {
        let w = char_width_exec(v[i]);
        proof {
            assert(v@.take(i + 1).drop_last() =~= v@.take(i as int));
        }
        if w >= cap - n {
            proof {
                lemma_utf8_len_grows(v@, i + 1);
            }
            return cap;
        }
        n = n + w;
        i += 1;
    }
    proof {
        assert(v@.take(i as int) =~= v@);
    }
    n
}

/// The leading characters of `s` whose UTF-8 encoding is exactly `n` bytes
/// long, if `n` falls on a character boundary within `s` (`str::get(..n)`).
pub open spec fn byte_prefix(s: Seq<char>, n: nat) -> Option<Seq<char>>
    decreases s.len(),
{
    if n == 0 {
        Some(seq![])
    } else if s.len() == 0 || char_width(s[0]) > n {
        None
    } else {
        match byte_prefix(s.drop_first(), (n - char_width(s[0])) as nat) {
            Some(t) => Some(seq![s[0]] + t),
            None => None,
        }
    }
}

/// `str::get(..n)`.
pub fn byte_prefix_chars(v: &[char], n: u64) -> (r: Option<Vec<char>>)
    ensures
        match r {
            Some(t) => byte_prefix(v@, n as nat) == Some(t@),
            None => byte_prefix(v@, n as nat) is None,
        },
{
    let mut left: u64 = n;
    let mut i: usize = 0;
    proof {
        assert(v@.skip(0) =~= v@);
    }
    while left > 0
        invariant
            i <= v@.len(),
            left <= n,
            byte_prefix(v@, n as nat) == match byte_prefix(v@.skip(i as int), left as nat) {
                Some(t) => Some(v@.take(i as int) + t),
                None => None::<Seq<char>>,
            },
        decreases left,
    {
        if i == v.len() {
            return None;
        }
        let w = char_width_exec(v[i]);
        if w > left {
            return None;
        }
        proof {
            let rest = v@.skip(i as int);
            assert(rest[0] == v@[i as int]);
            assert(rest.drop_first() =~= v@.skip(i + 1));
            match byte_prefix(v@.skip(i + 1), (left - w) as nat) {
                Some(t) => {
                    assert(v@.take(i as int) + (seq![v@[i as int]] + t) =~= v@.take(i + 1) + t);
                },
                None => {},
            }
        }
        left = left - w;
        i += 1;
    }
    proof {
        assert(v@.take(i as int) + seq![] =~= v@.take(i as int));
        assert(v@.take(i as int) =~= v@.subrange(0, i as int));
    }
    Some(copy_range(v, 0, i))
}

/// The two lowercase hexadecimal digits of a byte, as `{:02x}` writes them.
pub open spec fn hex_digit(d: nat) -> char {
    if d < 10 {
        digit_char(d)
    } else if d == 10 {
        'a'
    } else if d == 11 {
        'b'
    } else if d == 12 {
        'c'
    } else if d == 13 {
        'd'
    } else if d == 14 {
        'e'
    } else {
        'f'
    }
}

/// The lowercase hexadecimal rendering of `b`, two digits per byte.
pub open spec fn hex_lower(b: Seq<u8>) -> Seq<char>
    decreases b.len(),
{
    if b.len() == 0 {
        seq![]
    } else {
        hex_lower(b.drop_last()) + seq![
            hex_digit((b.last() / 16) as nat),
            hex_digit((b.last() % 16) as nat),
        ]
    }
}

fn hex_digit_chars_exec(d: u8) -> (c: char)
    requires
        d < 16,
    ensures
        c == hex_digit(d as nat),
{
    if d < 10 {
        digit_chars_exec(d as u64)
    } else if d == 10 {
        'a'
    } else if d == 11 {
        'b'
    } else if d == 12 {
        'c'
    } else if d == 13 {
        'd'
    } else if d == 14 {
        'e'
    } else {
        'f'
    }
}

/// Each byte as two lowercase hexadecimal digits.
pub fn hex_lower_chars(b: &[u8]) -> (r: Vec<char>)
    ensures
        r@ == hex_lower(b@),
{
    let mut r: Vec<char> = Vec::new();
    let mut i: usize = 0;
    while i < b.len()
        invariant
            i <= b@.len(),
            r@ == hex_lower(b@.take(i as int)),
        decreases b@.len() - i,
    {
        let x = b[i];
        r.push(hex_digit_chars_exec(x / 16));
        r.push(hex_digit_chars_exec(x % 16));
        i += 1;
        proof {
            assert(b@.take(i as int).drop_last() =~= b@.take(i - 1));
            assert(r@ =~= hex_lower(b@.take(i as int)));
        }
    }
    proof {
        assert(b@.take(i as int) =~= b@);
    }
    r
}

/// Neither marker occurs in `s`.
pub open spec fn free_of(s: Seq<char>, open: char, close: char) -> bool {
    forall|i: int| 0 <= i < s.len() ==> s[i] != open && s[i] != close
}

proof fn lemma_strip_tags_free(s: Seq<char>, open: char, close: char, in_tag: bool)
    ensures
        free_of(strip_tags(s, open, close, in_tag), open, close),
        strip_tags(s, open, close, in_tag).len() <= s.len(),
    decreases s.len(),
{
    if s.len() > 0 {
        let rest = s.drop_first();
        if s[0] == open {
            lemma_strip_tags_free(rest, open, close, true);
        } else if s[0] == close {
            lemma_strip_tags_free(rest, open, close, false);
        } else {
            lemma_strip_tags_free(rest, open, close, in_tag);
            if !in_tag {
                let t = strip_tags(rest, open, close, in_tag);
                assert forall|i: int| 0 <= i < (seq![s[0]] + t).len() implies (seq![s[0]] + t)[i]
                    != open && (seq![s[0]] + t)[i] != close by {
                    if i > 0 {
                        assert((seq![s[0]] + t)[i] == t[i - 1]);
                    }
                }
            }
        }
    }
}

proof fn lemma_strip_tags_identity(s: Seq<char>, open: char, close: char)
    requires
        free_of(s, open, close),
    ensures
        strip_tags(s, open, close, false) == s,
    decreases s.len(),
{
    if s.len() > 0 {
        let rest = s.drop_first();
        assert forall|i: int| 0 <= i < rest.len() implies rest[i] != open && rest[i] != close by {
            assert(rest[i] == s[i + 1]);
        }
        lemma_strip_tags_identity(rest, open, close);
        assert(seq![s[0]] + rest =~= s);
    }
}

/// Law: removing tags leaves no marker behind and never lengthens the text,
/// so removing them again changes nothing.
pub proof fn law_strip_tags(s: Seq<char>, open: char, close: char)
    ensures
        free_of(strip_tags(s, open, close, false), open, close),
        strip_tags(s, open, close, false).len() <= s.len(),
        strip_tags(strip_tags(s, open, close, false), open, close, false) == strip_tags(
            s,
            open,
            close,
            false,
        ),
{
    lemma_strip_tags_free(s, open, close, false);
    lemma_strip_tags_identity(strip_tags(s, open, close, false), open, close);
}

proof fn lemma_digit_roundtrip(d: nat)
    requires
        d < 10,
    ensures
        is_digit(digit_char(d)),
        digit_value(digit_char(d)) == d,
        digit_char(d) != '+',
{
}

proof fn lemma_decimal_digits(n: nat)
    ensures
        all_digits(decimal(n)),
        decimal(n).len() > 0,
        digits_value(decimal(n)) == n,
        decimal(n)[0] != '+',
    decreases n,
{
    lemma_digit_roundtrip(n % 10);
    if n < 10 {
        lemma_digit_roundtrip(n);
        assert(decimal(n).drop_last() =~= Seq::<char>::empty());
        assert(digits_value(decimal(n)) == digits_value(decimal(n).drop_last()) * 10 + digit_value(
            decimal(n).last(),
        ));
    }
    if n >= 10 {
        lemma_decimal_digits(n / 10);
        let d = decimal(n);
        assert(d.last() == digit_char(n % 10));
        assert(n == (n / 10) * 10 + n % 10);
        assert(digits_value(d) == digits_value(d.drop_last()) * 10 + digit_value(d.last()));
        assert(d.drop_last() =~= decimal(n / 10));
        assert(d[0] == decimal(n / 10)[0]);
        assert forall|i: int| 0 <= i < d.len() implies is_digit(#[trigger] d[i]) by {
            if i < d.len() - 1 {
                assert(d[i] == decimal(n / 10)[i]);
            }
        }
    }
}

/// Law: parsing the decimal representation of a value gives the value back,
/// whenever it fits.
pub proof fn law_parse_decimal(n: nat, max: nat)
    requires
        n <= max,
    ensures
        parse_unsigned(decimal(n), max) == Some(n),
{
    lemma_decimal_digits(n);
}

} // verus!
