//! Character-level helpers on `/`-separated path text.
use vstd::prelude::*;
use vstd::string::*;

verus! {

/// Position of the last `c` in `s`, or -1 when `s` holds none.
pub open spec fn last_index_of(s: Seq<char>, c: char) -> int
    decreases s.len(),
{
    if s.len() == 0 {
        -1
    } else if s.last() == c {
        s.len() - 1
    } else {
        last_index_of(s.drop_last(), c)
    }
}

pub proof fn lemma_last_index_of(s: Seq<char>, c: char)
    ensures
        -1 <= last_index_of(s, c) < s.len(),
        last_index_of(s, c) >= 0 ==> s[last_index_of(s, c)] == c,
        forall|j: int| last_index_of(s, c) < j < s.len() ==> s[j] != c,
    decreases s.len(),
{
    if s.len() > 0 && s.last() != c {
        lemma_last_index_of(s.drop_last(), c);
        assert forall|j: int| last_index_of(s, c) < j < s.len() implies s[j] != c by {
            if j < s.len() - 1 {
                assert(s[j] == s.drop_last()[j]);
            }
        }
    }
}

/// The last component of a path: what follows its last `/`.
/// A path whose last component is empty or `..` has no file name.
pub open spec fn file_name_of(p: Seq<char>) -> Option<Seq<char>> {
    let name = p.subrange(last_index_of(p, '/') + 1, p.len() as int);
    if name.len() == 0 || name == seq!['.', '.'] {
        None
    } else {
        Some(name)
    }
}

/// The file name without its extension. A file name whose only dot is its
/// first character has no extension.
pub open spec fn stem_of(p: Seq<char>) -> Option<Seq<char>> {
    match file_name_of(p) {
        None => None,
        Some(name) => {
            let k = last_index_of(name, '.');
            if k > 0 {
                Some(name.subrange(0, k))
            } else {
                Some(name)
            }
        },
    }
}

/// What follows the last dot of the file name, when it is not the first character.
pub open spec fn extension_of(p: Seq<char>) -> Option<Seq<char>> {
    match file_name_of(p) {
        None => None,
        Some(name) => {
            let k = last_index_of(name, '.');
            if k > 0 {
                Some(name.subrange(k + 1, name.len() as int))
            } else {
                None
            }
        },
    }
}

/// The text before the last `/` of a path (empty when it has none).
pub open spec fn directory_of(p: Seq<char>) -> Seq<char> {
    let k = last_index_of(p, '/');
    if k >= 0 {
        p.subrange(0, k)
    } else {
        Seq::empty()
    }
}

/// `rel` appended to `base`: an absolute `rel` replaces `base`, and a `/`
/// is put between the two unless `base` is empty or already ends with one.
pub open spec fn join_of(base: Seq<char>, rel: Seq<char>) -> Seq<char> {
    if rel.len() > 0 && rel[0] == '/' {
        rel
    } else if base.len() == 0 || base.last() == '/' {
        base + rel
    } else {
        base + seq!['/'] + rel
    }
}

/// Every occurrence of the non-empty `from` in `s`, found left to right
/// without overlap, replaced by `to`.
pub open spec fn replace_all(s: Seq<char>, from: Seq<char>, to: Seq<char>) -> Seq<char>
    recommends
        from.len() > 0,
    decreases s.len(),
{
    if from.len() == 0 || s.len() < from.len() {
        s
    } else if s.subrange(0, from.len() as int) == from {
        to + replace_all(s.subrange(from.len() as int, s.len() as int), from, to)
    } else {
        seq![s[0]] + replace_all(s.subrange(1, s.len() as int), from, to)
    }
}

/// The position of the last `c` in `s`.
pub fn find_last(s: &str, c: char) -> (r: Option<usize>)
    ensures
        match r {
            Some(i) => i == last_index_of(s@, c),
            None => last_index_of(s@, c) == -1,
        },
{
    let n = s.unicode_len();
    let mut i: usize = n;
    assert(s@.subrange(0, n as int) =~= s@);
    while i > 0
        invariant
            i <= n == s@.len(),
            last_index_of(s@, c) == last_index_of(s@.subrange(0, i as int), c),
        decreases i,
    {
        let ch = s.get_char(i - 1);
        let ghost pre = s@.subrange(0, i as int);
        assert(pre.drop_last() =~= s@.subrange(0, i - 1));
        if ch == c {
            return Some(i - 1);
        }
        i = i - 1;
    }
    None
}

/// The text of `s` between two character positions, as a new string.
pub fn slice_text(s: &str, from: usize, to: usize) -> (r: String)
    requires
        from <= to <= s@.len(),
    ensures
        r@ == s@.subrange(from as int, to as int),
{
    s.substring_char(from, to).to_owned()
}

/// The character range of the file name within `p`.
fn file_name_range(p: &str) -> (r: Option<(usize, usize)>)
    ensures
        match r {
            Some((a, b)) => a <= b == p@.len() && file_name_of(p@) == Some(
                p@.subrange(a as int, b as int),
            ),
            None => file_name_of(p@) is None,
        },
{
    let n = p.unicode_len();
    proof {
        lemma_last_index_of(p@, '/');
    }
    let start: usize = match find_last(p, '/') {
        Some(k) => k + 1,
        None => 0,
    };
    let ghost name = p@.subrange(start as int, n as int);
    let len = n - start;
    if len == 0 {
        return None;
    }
    if len == 2 {
        let a = p.get_char(start);
        let b = p.get_char(start + 1);
        assert(name[0] == a && name[1] == b);
        if a == '.' && b == '.' {
            assert(name =~= seq!['.', '.']);
            return None;
        }
        assert(name != seq!['.', '.']) by {
            if name == seq!['.', '.'] {
                assert(seq!['.', '.'][0] == '.' && seq!['.', '.'][1] == '.');
            }
        }
    } else {
        assert(name.len() != seq!['.', '.'].len());
    }
    Some((start, n))
}

/// The file name of a path.
pub fn file_name(p: &str) -> (r: Option<String>)
    ensures
        match r {
            Some(s) => file_name_of(p@) == Some(s@),
            None => file_name_of(p@) is None,
        },
{
    match file_name_range(p) {
        Some((a, b)) => Some(slice_text(p, a, b)),
        None => None,
    }
}

/// The file name of a path without its extension.
pub fn file_stem(p: &str) -> (r: Option<String>)
    ensures
        match r {
            Some(s) => stem_of(p@) == Some(s@),
            None => stem_of(p@) is None,
        },
{
    let name = file_name(p)?;
    proof {
        lemma_last_index_of(name@, '.');
    }
    match find_last(name.as_str(), '.') {
        Some(k) => {
            if k > 0 {
                Some(slice_text(name.as_str(), 0, k))
            } else {
                Some(name)
            }
        },
        None => Some(name),
    }
}

/// The extension of a path's file name.
pub fn extension(p: &str) -> (r: Option<String>)
    ensures
        match r {
            Some(s) => extension_of(p@) == Some(s@),
            None => extension_of(p@) is None,
        },
{
    let name = file_name(p)?;
    proof {
        lemma_last_index_of(name@, '.');
    }
    match find_last(name.as_str(), '.') {
        Some(k) => {
            if k > 0 {
                let n = name.unicode_len();
                Some(slice_text(name.as_str(), k + 1, n))
            } else {
                None
            }
        },
        None => None,
    }
}

/// The directory part of a path: the text before its last `/`.
pub fn directory(p: &str) -> (r: String)
    ensures
        r@ == directory_of(p@),
{
    proof {
        lemma_last_index_of(p@, '/');
    }
    match find_last(p, '/') {
        Some(k) => slice_text(p, 0, k),
        None => String::new(),
    }
}

/// `rel` joined onto `base`.
pub fn join(base: &str, rel: &str) -> (r: String)
    ensures
        r@ == join_of(base@, rel@),
{
    let nr = rel.unicode_len();
    if nr > 0 && rel.get_char(0) == '/' {
        return rel.to_owned();
    }
    let nb = base.unicode_len();
    let mut out = base.to_owned();
    if !(nb == 0 || base.get_char(nb - 1) == '/') {
        out.append("/");
    }
    out.append(rel);
    proof {
        reveal_strlit("/");
        if !(base@.len() == 0 || base@.last() == '/') {
            assert(out@ =~= base@ + seq!['/'] + rel@);
        }
    }
    out
}

/// Whether `from` occurs in `s` at character position `i`.
fn occurs_at(s: &str, from: &str, i: usize) -> (r: bool)
    requires
        i + from@.len() <= s@.len(),
    ensures
        r == (s@.subrange(i as int, i + from@.len()) == from@),
{
    let m = from.unicode_len();
    let n = s.unicode_len();
    let mut j: usize = 0;
    while j < m
        invariant
            m == from@.len(),
            n == s@.len(),
            i + m <= s@.len(),
            j <= m,
            forall|k: int| 0 <= k < j ==> s@[i + k] == from@[k],
        decreases m - j,
    {
        if s.get_char(i + j) != from.get_char(j) {
            assert(s@.subrange(i as int, i + m)[j as int] != from@[j as int]);
            return false;
        }
        j = j + 1;
    }
    assert(s@.subrange(i as int, i + m) =~= from@);
    true
}

/// `s` with every occurrence of the non-empty `from` replaced by `to`.
pub fn replace_text(s: &str, from: &str, to: &str) -> (r: String)
    requires
        from@.len() > 0,
    ensures
        r@ == replace_all(s@, from@, to@),
{
    let n = s.unicode_len();
    let m = from.unicode_len();
    let mut out = String::new();
    let mut i: usize = 0;
    assert(s@.subrange(0, n as int) =~= s@);
    assert(out@ + replace_all(s@, from@, to@) =~= replace_all(s@, from@, to@));
    while i < n
        invariant
            n == s@.len(),
            m == from@.len() > 0,
            i <= n,
            out@ + replace_all(s@.subrange(i as int, n as int), from@, to@) == replace_all(
                s@,
                from@,
                to@,
            ),
        decreases n - i,
    {
        let ghost rest = s@.subrange(i as int, n as int);
        let ghost before = out@;
        if m <= n - i && occurs_at(s, from, i) {
            assert(rest.subrange(0, m as int) =~= s@.subrange(i as int, i + m));
            assert(rest.subrange(m as int, rest.len() as int) =~= s@.subrange(
                i + m,
                n as int,
            ));
            out.append(to);
            let ghost tail = replace_all(s@.subrange(i + m, n as int), from@, to@);
            assert(before + (to@ + tail) =~= (before + to@) + tail);
            i = i + m;
        } else {
            let piece = s.substring_char(i, i + 1);
            assert(rest.subrange(1, rest.len() as int) =~= s@.subrange(i + 1, n as int));
            if m <= n - i {
                assert(rest.subrange(0, m as int) =~= s@.subrange(i as int, i + m));
            }
            assert(piece@ =~= seq![rest[0]]);
            out.append(piece);
            let ghost tail = replace_all(s@.subrange(i + 1, n as int), from@, to@);
            assert(before + (piece@ + tail) =~= (before + piece@) + tail);
            i = i + 1;
        }
    }
    assert(s@.subrange(n as int, n as int) =~= Seq::<char>::empty());
    assert(out@ + Seq::<char>::empty() =~= out@);
    out
}

/// The last `c` of a path whose tail holds one lies in that tail.
pub proof fn lemma_last_index_of_concat(a: Seq<char>, b: Seq<char>, c: char)
    requires
        last_index_of(b, c) >= 0,
    ensures
        last_index_of(a + b, c) == a.len() + last_index_of(b, c),
    decreases b.len(),
{
    assert((a + b).last() == b.last());
    if b.last() != c {
        assert((a + b).drop_last() =~= a + b.drop_last());
        lemma_last_index_of_concat(a, b.drop_last(), c);
    }
}

} // verus!
