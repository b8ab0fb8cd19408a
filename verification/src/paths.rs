//! File names and paths as std's `Path` reads them on Unix, over text.

use vstd::prelude::*;
use crate::language::join_with;
use crate::text::{copy_range, push_all, split_char, split_chars, starts_with, views};

verus! {

/// The last component of a path that `Path::file_name` would give, reading
/// the pieces between `/` from the right: empty pieces and `.` are skipped,
/// `..` means there is none.
pub open spec fn last_name(ps: Seq<Seq<char>>) -> Option<Seq<char>>
    decreases ps.len(),
{
    if ps.len() == 0 {
        None
    } else if ps.last().len() == 0 || ps.last() == seq!['.'] {
        last_name(ps.drop_last())
    } else if ps.last() == seq!['.', '.'] {
        None
    } else {
        Some(ps.last())
    }
}

/// `Path::file_name` on Unix.
pub open spec fn file_name_of(path: Seq<char>) -> Option<Seq<char>> {
    last_name(split_char(path, '/'))
}

fn is_dot(v: &[char]) -> (b: bool)
    ensures
        b == (v@ == seq!['.']),
{
    let r = v.len() == 1 && v[0] == '.';
    proof {
        if v@.len() == 1 && v@[0] == '.' {
            assert(v@ =~= seq!['.']);
        }
    }
    r
}

fn is_dot_dot(v: &[char]) -> (b: bool)
    ensures
        b == (v@ == seq!['.', '.']),
{
    let r = v.len() == 2 && v[0] == '.' && v[1] == '.';
    proof {
        if v@.len() == 2 && v@[0] == '.' && v@[1] == '.' {
            assert(v@ =~= seq!['.', '.']);
        }
    }
    r
}

/// `Path::file_name` on Unix.
pub fn file_name(path: &[char]) -> (r: Option<Vec<char>>)
    ensures
        match r {
            Some(n) => file_name_of(path@) == Some(n@),
            None => file_name_of(path@) is None,
        },
{
    let ps = split_chars(path, '/');
    let mut k: usize = ps.len();
    proof {
        assert(views(ps@).take(ps@.len() as int) =~= views(ps@));
    }
    while k > 0
        invariant
            k <= ps@.len(),
            views(ps@) == split_char(path@, '/'),
            last_name(views(ps@)) == last_name(views(ps@).take(k as int)),
        decreases k,
    {
        let piece = &ps[k - 1];
        let ghost t = views(ps@).take(k as int);
        proof {
            assert(t.last() == piece@);
            assert(t.drop_last() =~= views(ps@).take(k - 1));
        }
        if piece.len() == 0 || is_dot(piece.as_slice()) {
            k -= 1;
        } else if is_dot_dot(piece.as_slice()) {
            return None;
        } else {
            let n = copy_range(piece.as_slice(), 0, piece.len());
            proof {
                assert(n@ =~= piece@);
            }
            return Some(n);
        }
    }
    proof {
        assert(views(ps@).take(0) =~= Seq::<Seq<char>>::empty());
    }
    None
}

/// Index of the last `c` in `s`, if there is one.
pub open spec fn last_pos(s: Seq<char>, c: char) -> Option<nat>
    decreases s.len(),
{
    if s.len() == 0 {
        None
    } else if s.last() == c {
        Some((s.len() - 1) as nat)
    } else {
        last_pos(s.drop_last(), c)
    }
}

proof fn lemma_last_pos(s: Seq<char>, c: char)
    ensures
        last_pos(s, c) matches Some(i) ==> i < s.len() && s[i as int] == c,
    decreases s.len(),
{
    if s.len() > 0 && s.last() != c {
        lemma_last_pos(s.drop_last(), c);
    }
}

/// The stem and extension of a file name, as `Path::file_stem` and
/// `Path::extension` split it: at the last `.`, unless the name has no `.`
/// other than a leading one, or is `..`.
pub open spec fn stem_and_extension(name: Seq<char>) -> (Seq<char>, Option<Seq<char>>) {
    if name == seq!['.', '.'] {
        (name, None)
    } else {
        match last_pos(name, '.') {
            Some(i) => if i == 0 {
                (name, None)
            } else {
                (name.take(i as int), Some(name.skip(i + 1 as int)))
            },
            None => (name, None),
        }
    }
}

/// `Path::extension` of a path that is a bare file name.
pub open spec fn extension_of(name: Seq<char>) -> Option<Seq<char>> {
    stem_and_extension(name).1
}

/// `Path::file_stem` of a path: the stem of its file name.
pub open spec fn file_stem_of(path: Seq<char>) -> Option<Seq<char>> {
    match file_name_of(path) {
        Some(n) => Some(stem_and_extension(n).0),
        None => None,
    }
}

/// The stem and extension of a file name.
pub fn split_extension(name: &[char]) -> (r: (Vec<char>, Option<Vec<char>>))
    ensures
        r.0@ == stem_and_extension(name@).0,
        match r.1 {
            Some(e) => stem_and_extension(name@).1 == Some(e@),
            None => stem_and_extension(name@).1 is None,
        },
{
    let whole = copy_range(name, 0, name.len());
    proof {
        assert(name@.subrange(0, name@.len() as int) =~= name@);
    }
    if is_dot_dot(name) {
        return (whole, None);
    }
    let mut k: usize = name.len();
    while k > 0 && name[k - 1] != '.'
        invariant
            k <= name@.len(),
            last_pos(name@, '.') == last_pos(name@.take(k as int), '.'),
        decreases k,
    {
        proof {
            assert(name@.take(k as int).drop_last() =~= name@.take(k - 1));
        }
        k -= 1;
    }
    if k == 0 {
        proof {
            assert(name@.take(0) =~= Seq::<char>::empty());
        }
        return (whole, None);
    }
    proof {
        assert(name@.take(k as int).last() == name@[k - 1]);
    }
    if k == 1 {
        return (whole, None);
    }
    let stem = copy_range(name, 0, k - 1);
    let ext = copy_range(name, k, name.len());
    proof {
        assert(stem@ =~= name@.take(k - 1));
        assert(ext@ =~= name@.skip(k as int));
    }
    (stem, Some(ext))
}

/// `PathBuf::push` (and so `Path::join`) on Unix: an absolute path replaces
/// the base; otherwise it is appended, with a `/` between the two unless
/// the base is empty or already ends in one.
pub open spec fn join_path(base: Seq<char>, rel: Seq<char>) -> Seq<char> {
    if starts_with(rel, seq!['/']) {
        rel
    } else if base.len() > 0 && base.last() != '/' {
        base + seq!['/'] + rel
    } else {
        base + rel
    }
}

/// `Path::join` on Unix.
pub fn join(base: &[char], rel: &[char]) -> (r: Vec<char>)
    ensures
        r@ == join_path(base@, rel@),
{
    let absolute = rel.len() > 0 && rel[0] == '/';
    proof {
        if rel@.len() > 0 {
            assert(rel@.subrange(0, 1) =~= seq![rel@[0]]);
            if rel@[0] != '/' {
                assert(rel@.subrange(0, 1)[0] != seq!['/'][0]);
            }
        }
        assert(absolute == starts_with(rel@, seq!['/']));
    }
    if absolute {
        return copy_range(rel, 0, rel.len());
    }
    let mut out = copy_range(base, 0, base.len());
    proof {
        assert(base@.subrange(0, base@.len() as int) =~= base@);
        assert(rel@.subrange(0, rel@.len() as int) =~= rel@);
    }
    if base.len() > 0 && base[base.len() - 1] != '/' {
        out.push('/');
    }
    push_all(&mut out, rel);
    out
}

/// Which of the pieces between `/` is the file name (see `last_name`).
pub open spec fn name_index(ps: Seq<Seq<char>>) -> Option<nat>
    decreases ps.len(),
{
    if ps.len() == 0 {
        None
    } else if ps.last().len() == 0 || ps.last() == seq!['.'] {
        name_index(ps.drop_last())
    } else if ps.last() == seq!['.', '.'] {
        None
    } else {
        Some((ps.len() - 1) as nat)
    }
}

/// `Path::with_extension` on Unix: the path up to the end of its file stem,
/// then `.` and the extension (nothing when the extension is empty); a path
/// without a file name stays as it is.
pub open spec fn with_extension_of(path: Seq<char>, ext: Seq<char>) -> Seq<char> {
    let ps = split_char(path, '/');
    match name_index(ps) {
        None => path,
        Some(k) => {
            let before = if k == 0 {
                seq![]
            } else {
                join_with(ps.take(k as int), '/') + seq!['/']
            };
            before + stem_and_extension(ps[k as int]).0 + if ext.len() == 0 {
                seq![]
            } else {
                seq!['.'] + ext
            }
        },
    }
}

/// `Path::with_extension` on Unix.
pub fn with_extension(path: &[char], ext: &[char]) -> (r: Vec<char>)
    ensures
        r@ == with_extension_of(path@, ext@),
{
    let ps = split_chars(path, '/');
    let ghost pv = views(ps@);
    let mut k: usize = ps.len();
    proof {
        assert(pv.take(pv.len() as int) =~= pv);
    }
    let mut found = false;
    while k > 0 && !found
        invariant
            k <= ps@.len(),
            pv == views(ps@),
            pv == split_char(path@, '/'),
            !found ==> name_index(pv) == name_index(pv.take(k as int)),
            found ==> k > 0 && name_index(pv) == Some((k - 1) as nat),
        decreases k + (if found { 0int } else { 1int }),
    {
        let piece = &ps[k - 1];
        let ghost t = pv.take(k as int);
        proof {
            assert(t.last() == piece@);
            assert(t.drop_last() =~= pv.take(k - 1));
        }
        if piece.len() == 0 || is_dot(piece.as_slice()) {
            k -= 1;
        } else if is_dot_dot(piece.as_slice()) {
            return copy_range(path, 0, path.len());
        } else {
            found = true;
        }
    }
    if !found {
        proof {
            assert(pv.take(0) =~= Seq::<Seq<char>>::empty());
        }
        return copy_range(path, 0, path.len());
    }
    let idx = k - 1;
    let mut out: Vec<char> = Vec::new();
    if idx > 0 {
        let mut j: usize = 0;
        while j < idx
            invariant
                idx < ps@.len(),
                pv == views(ps@),
                j <= idx,
                j > 0 ==> out@ == join_with(pv.take(j as int), '/'),
                j == 0 ==> out@ == Seq::<char>::empty(),
            decreases idx - j,
        {
            if j > 0 {
                out.push('/');
            }
            push_all(&mut out, ps[j].as_slice());
            proof {
                let t = pv.take(j + 1);
                assert(t.drop_last() =~= pv.take(j as int));
                assert(t.last() == ps@[j as int]@);
                if j == 0 {
                    assert(out@ =~= t[0]);
                }
            }
            j += 1;
        }
        out.push('/');
    }
    let (stem, _e) = split_extension(ps[idx].as_slice());
    push_all(&mut out, stem.as_slice());
    if ext.len() > 0 {
        out.push('.');
        push_all(&mut out, ext);
    }
    proof {
        assert(pv[idx as int] == ps@[idx as int]@);
        let before = if idx == 0 {
            Seq::<char>::empty()
        } else {
            join_with(pv.take(idx as int), '/') + seq!['/']
        };
        if ext@.len() == 0 {
            assert(out@ =~= before + stem_and_extension(pv[idx as int]).0);
        } else {
            assert(out@ =~= before + stem_and_extension(pv[idx as int]).0 + (seq!['.'] + ext@));
        }
    }
    out
}

/// The last `c` of `a`, `c`, `b` is the one after `a`, when `b` holds none.
pub proof fn lemma_last_pos_after(a: Seq<char>, b: Seq<char>, c: char)
    requires
        forall|i: int| 0 <= i < b.len() ==> b[i] != c,
    ensures
        last_pos(a + seq![c] + b, c) == Some(a.len()),
    decreases b.len(),
{
    let s = a + seq![c] + b;
    if b.len() > 0 {
        assert(s.last() == b.last());
        assert(s.drop_last() =~= a + seq![c] + b.drop_last());
        lemma_last_pos_after(a, b.drop_last(), c);
    }
}

/// A file name that holds a `.` after a nonempty start has, as extension,
/// what follows its last `.`.
pub proof fn lemma_extension_after(a: Seq<char>, b: Seq<char>)
    requires
        a.len() > 0,
        a + seq!['.'] + b != seq!['.', '.'],
        forall|i: int| 0 <= i < b.len() ==> b[i] != '.',
    ensures
        stem_and_extension(a + seq!['.'] + b) == (a, Some(b)),
{
    let s = a + seq!['.'] + b;
    lemma_last_pos_after(a, b, '.');
    assert(s.take(a.len() as int) =~= a);
    assert(s.skip(a.len() + 1 as int) =~= b);
}

} // verus!
