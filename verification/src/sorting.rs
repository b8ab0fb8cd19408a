//! Stable sorting by a key made of a rank and a text, the order that the
//! library's listings use.

use vstd::prelude::*;

verus! {

/// `a` comes before `b` or equals it, comparing character by character
/// (the order of `str`'s `Ord`, since UTF-8 keeps code-point order).
pub open spec fn text_le(a: Seq<char>, b: Seq<char>) -> bool
    decreases a.len(),
{
    if a.len() == 0 {
        true
    } else if b.len() == 0 {
        false
    } else if a[0] != b[0] {
        a[0] < b[0]
    } else {
        text_le(a.drop_first(), b.drop_first())
    }
}

pub proof fn lemma_text_le_total(a: Seq<char>, b: Seq<char>)
    ensures
        text_le(a, b) || text_le(b, a),
    decreases a.len(),
{
    if a.len() > 0 && b.len() > 0 && a[0] == b[0] {
        lemma_text_le_total(a.drop_first(), b.drop_first());
    }
}

pub proof fn lemma_text_le_antisymmetric(a: Seq<char>, b: Seq<char>)
    requires
        text_le(a, b),
        text_le(b, a),
    ensures
        a == b,
    decreases a.len(),
{
    if a.len() > 0 && b.len() > 0 {
        lemma_text_le_antisymmetric(a.drop_first(), b.drop_first());
        assert(a =~= seq![a[0]] + a.drop_first());
        assert(b =~= seq![b[0]] + b.drop_first());
    } else {
        assert(a.len() == 0 && b.len() == 0);
        assert(a =~= b);
    }
}

pub proof fn lemma_text_le_transitive(a: Seq<char>, b: Seq<char>, c: Seq<char>)
    requires
        text_le(a, b),
        text_le(b, c),
    ensures
        text_le(a, c),
    decreases a.len(),
{
    if a.len() > 0 && b.len() > 0 && c.len() > 0 && a[0] == b[0] && b[0] == c[0] {
        lemma_text_le_transitive(a.drop_first(), b.drop_first(), c.drop_first());
    }
}

/// A sort key: a rank compared first, then a text.
pub open spec fn key_le(a: (int, Seq<char>), b: (int, Seq<char>)) -> bool {
    a.0 < b.0 || (a.0 == b.0 && text_le(a.1, b.1))
}

pub proof fn lemma_key_le_facts(a: (int, Seq<char>), b: (int, Seq<char>), c: (int, Seq<char>))
    ensures
        key_le(a, b) || key_le(b, a),
        key_le(a, b) && key_le(b, a) ==> a == b,
        key_le(a, b) && key_le(b, c) ==> key_le(a, c),
{
    lemma_text_le_total(a.1, b.1);
    if key_le(a, b) && key_le(b, a) {
        lemma_text_le_antisymmetric(a.1, b.1);
    }
    if key_le(a, b) && key_le(b, c) && a.0 == b.0 && b.0 == c.0 {
        lemma_text_le_transitive(a.1, b.1, c.1);
    }
}

/// The key of a sortable item, in executable form.
pub struct SortKey {
    pub rank: u64,
    pub text: Vec<char>,
}

impl SortKey {
    pub open spec fn view_key(&self) -> (int, Seq<char>) {
        (self.rank as int, self.text@)
    }
}

/// `perm` lists each index below `n` exactly once.
pub open spec fn is_permutation(perm: Seq<int>, n: nat) -> bool {
    &&& perm.len() == n
    &&& forall|i: int| 0 <= i < n ==> 0 <= #[trigger] perm[i] < n
    &&& forall|i: int, j: int| 0 <= i < j < n ==> perm[i] != perm[j]
}

/// `out` is `input` rearranged by `perm` so that the keys never decrease and
/// items with equal keys keep their order: the result of a stable sort
/// (`slice::sort_by` with a comparator that orders by the key).
pub open spec fn sorted_by_perm<T>(
    input: Seq<T>,
    out: Seq<T>,
    key: spec_fn(T) -> (int, Seq<char>),
    perm: Seq<int>,
) -> bool {
    &&& is_permutation(perm, input.len())
    &&& out.len() == input.len()
    &&& forall|i: int| 0 <= i < out.len() ==> out[i] == input[#[trigger] perm[i]]
    &&& forall|i: int, j: int|
        0 <= i < j < out.len() ==> key_le(key(#[trigger] out[i]), key(#[trigger] out[j]))
    &&& forall|i: int, j: int|
        0 <= i < j < out.len() && key(#[trigger] out[i]) == key(#[trigger] out[j]) ==> perm[i]
            < perm[j]
}

/// `out` is the stable sort of `input` by `key`.
pub open spec fn stably_sorted<T>(
    input: Seq<T>,
    out: Seq<T>,
    key: spec_fn(T) -> (int, Seq<char>),
) -> bool {
    exists|perm: Seq<int>| sorted_by_perm(input, out, key, perm)
}

/// A stably sorted sequence has the length of the input and keys that never
/// decrease.
pub proof fn lemma_sorted_keys<T>(input: Seq<T>, out: Seq<T>, key: spec_fn(T) -> (int, Seq<char>))
    requires
        stably_sorted(input, out, key),
    ensures
        out.len() == input.len(),
        forall|i: int, j: int| 0 <= i < j < out.len() ==> key_le(key(#[trigger] out[i]), key(#[trigger] out[j])),
{
    let perm = choose|perm: Seq<int>| #[trigger] sorted_by_perm(input, out, key, perm);
}

/// Whether key `a` comes before key `b` or equals it.
pub fn key_le_exec(a: &SortKey, b: &SortKey) -> (r: bool)
    ensures
        r == key_le(a.view_key(), b.view_key()),
{
    if a.rank != b.rank {
        return a.rank < b.rank;
    }
    let x = a.text.as_slice();
    let y = b.text.as_slice();
    let mut i: usize = 0;
    proof {
        assert(x@.skip(0) =~= x@);
        assert(y@.skip(0) =~= y@);
    }
    while i < x.len() && i < y.len() && x[i] == y[i]
        invariant
            i <= x@.len(),
            i <= y@.len(),
            text_le(x@, y@) == text_le(x@.skip(i as int), y@.skip(i as int)),
        decreases x@.len() - i,
    {
        proof {
            assert(x@.skip(i as int).drop_first() =~= x@.skip(i + 1));
            assert(y@.skip(i as int).drop_first() =~= y@.skip(i + 1));
        }
        i += 1;
    }
    proof {
        if i < x@.len() {
            assert(x@.skip(i as int)[0] == x@[i as int]);
        }
        if i < y@.len() {
            assert(y@.skip(i as int)[0] == y@[i as int]);
        }
    }
    if i == x.len() {
        true
    } else if i == y.len() {
        false
    } else {
        x[i] < y[i]
    }
}

/// Sorts `items` stably by their keys, which `keys` holds in the same order.
pub fn sort_by_keys<T>(items: Vec<T>, keys: Vec<SortKey>, Ghost(key): Ghost<
    spec_fn(T) -> (int, Seq<char>),
>) -> (out: Vec<T>)
    requires
        keys@.len() == items@.len(),
        forall|i: int| 0 <= i < items@.len() ==> #[trigger] keys@[i].view_key() == key(items@[i]),
    ensures
        stably_sorted(items@, out@, key),
{
    let ghost input = items@;
    let ghost n = items@.len();
    let mut rest = items;
    let mut rest_keys = keys;
    let mut out: Vec<T> = Vec::new();
    let mut out_keys: Vec<SortKey> = Vec::new();
    let ghost mut perm: Seq<int> = Seq::empty();
    let mut j: usize = 0;
    let total = rest.len();
    while j < total
        invariant
            total == n,
            input.len() == n,
            j <= n,
            rest@ == input.skip(j as int),
            rest_keys@.len() == rest@.len(),
            forall|i: int| 0 <= i < rest@.len() ==> #[trigger] rest_keys@[i].view_key() == key(rest@[i]),
            out@.len() == j,
            out_keys@.len() == j,
            forall|i: int| 0 <= i < j ==> #[trigger] out_keys@[i].view_key() == key(out@[i]),
            perm.len() == j,
            forall|i: int| 0 <= i < j ==> 0 <= #[trigger] perm[i] < j,
            forall|a: int, b: int| 0 <= a < b < j ==> perm[a] != perm[b],
            forall|i: int| 0 <= i < j ==> out@[i] == input[#[trigger] perm[i]],
            forall|a: int, b: int| 0 <= a < b < j ==> key_le(key(#[trigger] out@[a]), key(#[trigger] out@[b])),
            forall|a: int, b: int|
                0 <= a < b < j && key(#[trigger] out@[a]) == key(#[trigger] out@[b]) ==> perm[a] < perm[b],
        decreases n - j,
    {
        proof {
            assert(rest@[0] == input[j as int]);
            assert(rest_keys@[0].view_key() == key(rest@[0]));
        }
        let ghost keys_before = rest_keys@;
        let item = rest.remove(0);
        let k = rest_keys.remove(0);
        proof {
            assert(rest@ =~= input.skip(j + 1));
            assert forall|i: int| 0 <= i < rest@.len() implies #[trigger] rest_keys@[i].view_key() == key(rest@[i]) by {
                assert(rest_keys@[i] == keys_before[i + 1]);
            }
        }
        let ghost kv = key(item);
        let mut p: usize = 0;
        while p < out_keys.len() && key_le_exec(&out_keys[p], &k)
            invariant
                p <= out_keys@.len(),
                out_keys@.len() == j,
                k.view_key() == kv,
                forall|i: int| 0 <= i < j ==> #[trigger] out_keys@[i].view_key() == key(out@[i]),
                forall|i: int| 0 <= i < p ==> key_le(key(#[trigger] out@[i]), kv),
            decreases j - p,
        {
            p += 1;
        }
        proof {
            if p < j {
                assert(!key_le(key(out@[p as int]), kv));
                assert forall|b: int| p <= b < j implies key_le(kv, key(#[trigger] out@[b])) && kv != key(out@[b]) by {
                    lemma_key_le_facts(kv, key(out@[p as int]), key(out@[b]));
                    lemma_key_le_facts(key(out@[p as int]), kv, key(out@[b]));
                    if b > p {
                        assert(key_le(key(out@[p as int]), key(out@[b])));
                    }
                    lemma_key_le_facts(key(out@[b]), kv, key(out@[p as int]));
                }
            }
        }
        let ghost old_out = out@;
        let ghost old_keys = out_keys@;
        let ghost old_perm = perm;
        out.insert(p, item);
        out_keys.insert(p, k);
        proof {
            perm = old_perm.insert(p as int, j as int);
            assert forall|i: int| 0 <= i < j + 1 implies #[trigger] out_keys@[i].view_key() == key(out@[i]) by {
                if i < p {
                } else if i == p {
                } else {
                    assert(out_keys@[i] == old_keys[i - 1]);
                }
            }
            assert forall|i: int| 0 <= i < j + 1 implies out@[i] == input[#[trigger] perm[i]] by {
                if i < p {
                    assert(out@[i] == old_out[i]);
                    assert(perm[i] == old_perm[i]);
                } else if i == p {
                } else {
                    assert(out@[i] == old_out[i - 1]);
                    assert(perm[i] == old_perm[i - 1]);
                }
            }
            assert forall|i: int| 0 <= i < j + 1 implies 0 <= #[trigger] perm[i] < j + 1 by {
                if i < p {
                    assert(perm[i] == old_perm[i]);
                } else if i > p {
                    assert(perm[i] == old_perm[i - 1]);
                }
            }
            assert forall|a: int, b: int| 0 <= a < b < j + 1 implies perm[a] != perm[b] by {
                let oa = if a < p { a } else { a - 1 };
                let ob = if b < p { b } else { b - 1 };
                if a != p && b != p {
                    assert(perm[a] == old_perm[oa]);
                    assert(perm[b] == old_perm[ob]);
                } else if a == p {
                    assert(perm[b] == old_perm[ob]);
                } else {
                    assert(perm[a] == old_perm[oa]);
                }
            }
            assert forall|a: int, b: int| 0 <= a < b < j + 1 implies key_le(key(#[trigger] out@[a]), key(#[trigger] out@[b])) by {
                let oa = if a < p { a } else { a - 1 };
                let ob = if b < p { b } else { b - 1 };
                if a != p && b != p {
                    assert(out@[a] == old_out[oa]);
                    assert(out@[b] == old_out[ob]);
                } else if a == p {
                    assert(out@[b] == old_out[ob]);
                    assert(ob >= p);
                } else {
                    assert(out@[a] == old_out[oa]);
                }
            }
            assert forall|a: int, b: int|
                0 <= a < b < j + 1 && key(#[trigger] out@[a]) == key(#[trigger] out@[b]) implies perm[a] < perm[b] by {
                let oa = if a < p { a } else { a - 1 };
                let ob = if b < p { b } else { b - 1 };
                if a != p && b != p {
                    assert(out@[a] == old_out[oa]);
                    assert(out@[b] == old_out[ob]);
                    assert(perm[a] == old_perm[oa]);
                    assert(perm[b] == old_perm[ob]);
                } else if a == p {
                    assert(out@[b] == old_out[ob]);
                    assert(ob >= p);
                } else {
                    assert(out@[a] == old_out[oa]);
                    assert(perm[a] == old_perm[oa]);
                }
            }
        }
        j += 1;
    }
    proof {
        assert(sorted_by_perm(input, out@, key, perm));
    }
    out
}

} // verus!
