use vstd::prelude::*;

verus! {

/// The position of the last `c` in `s`, or -1.
pub open spec fn last_index_of(s: Seq<char>, c: char) -> int
    decreases s.len(),
{
    if s.len() == 0 {
        -1
    } else if s.last() == c {
        s.len() - 1
    } else {
        last_index_of(s.drop_last(), c)
    }
}

/// Whether the end of `p` names no file: a separator, or a `.` component.
pub open spec fn ends_without_name(p: Seq<char>) -> bool {
    p.len() > 0 && (p.last() == '/' || (p.last() == '.' && (p.len() == 1 || p[p.len() - 2]
        == '/')))
}

/// `p` without the separators and `.` components at its end: `a/b/./` is `a/b`.
pub open spec fn trim_end(p: Seq<char>) -> Seq<char>
    decreases p.len(),
{
    if ends_without_name(p) {
        trim_end(p.drop_last())
    } else {
        p
    }
}

/// What follows the last `/` of `p`.
pub open spec fn last_component(p: Seq<char>) -> Seq<char> {
    p.subrange(last_index_of(p, '/') + 1, p.len() as int)
}

/// The file name of a path, as `std::path::Path::file_name` gives it: the
/// last component, trailing separators and `.` components ignored; none for
/// an empty path, the root, or a path whose last component is `..`.
pub open spec fn file_name_of(path: Seq<char>) -> Option<Seq<char>> {
    let name = last_component(trim_end(path));
    if name.len() == 0 || name == ".."@ {
        None
    } else {
        Some(name)
    }
}

/// The key by which scripts are ordered: the file name, or nothing for a
/// path without one.
pub open spec fn sort_name_of(path: Seq<char>) -> Seq<char> {
    match file_name_of(path) {
        Some(name) => name,
        None => Seq::empty(),
    }
}

/// A file name without its final extension. A dot that starts the name
/// does not start an extension.
pub open spec fn file_stem_of(name: Seq<char>) -> Seq<char> {
    let dot = last_index_of(name, '.');
    if dot > 0 {
        name.subrange(0, dot)
    } else {
        name
    }
}

pub open spec fn ends_with(s: Seq<char>, suffix: Seq<char>) -> bool {
    suffix.len() <= s.len() && s.subrange(s.len() - suffix.len(), s.len() as int) == suffix
}


pub proof fn lemma_last_index_bounds(s: Seq<char>, c: char)
    ensures
        -1 <= last_index_of(s, c) < s.len(),
        last_index_of(s, c) >= 0 ==> s[last_index_of(s, c)] == c,
    decreases s.len(),
{
    if s.len() > 0 && s.last() != c {
        lemma_last_index_bounds(s.drop_last(), c);
    }
}

/// The position of the last `c` in `s[start..n]`, counted from `start`.
pub(crate) fn last_index_from(s: &str, n: usize, c: char, start: usize) -> (r: Option<usize>)
    requires
        n <= s@.len(),
        start <= n,
    ensures
        match r {
            Some(i) => last_index_of(s@.subrange(start as int, n as int), c) == i,
            None => last_index_of(s@.subrange(start as int, n as int), c) == -1,
        },
        r matches Some(i) ==> start + i < n,
{
    let mut found: Option<usize> = None;
    let mut k: usize = start;
    proof {
        assert(s@.subrange(start as int, start as int).len() == 0);
    }
    while k < n
        invariant
            n <= s@.len(),
            start <= k <= n,
            match found {
                Some(i) => last_index_of(s@.subrange(start as int, k as int), c) == i,
                None => last_index_of(s@.subrange(start as int, k as int), c) == -1,
            },
            found matches Some(i) ==> start + i < k,
        decreases n - k,
    {
        let ch = s.get_char(k);
        proof {
            let t = s@.subrange(start as int, k + 1);
            assert(t.drop_last() =~= s@.subrange(start as int, k as int));
            assert(t.last() == ch);
        }
        if ch == c {
            found = Some(k - start);
        }
        k = k + 1;
    }
    found
}

/// Whether `s[from..from + t.len()]` is `t`.
pub(crate) fn matches_at(s: &str, n: usize, from: usize, t: &str) -> (r: bool)
    requires
        n == s@.len(),
        from + t@.len() <= n,
    ensures
        r == (s@.subrange(from as int, from + t@.len()) == t@),
{
    let m = t.unicode_len();
    let mut j: usize = 0;
    while j < m
        invariant
            n == s@.len(),
            m == t@.len(),
            from + m <= n,
            0 <= j <= m,
            forall|x: int| 0 <= x < j ==> s@[from + x] == t@[x],
        decreases m - j,
    {
        if s.get_char(from + j) != t.get_char(j) {
            proof {
                assert(s@.subrange(from as int, from + m)[j as int] != t@[j as int]);
            }
            return false;
        }
        j = j + 1;
    }
    assert(s@.subrange(from as int, from + m) =~= t@);
    true
}

/// Lexicographic order on character sequences, from position `i` on.
pub open spec fn lex_le_from(a: Seq<char>, b: Seq<char>, i: nat) -> bool
    decreases a.len() - i,
{
    if i >= a.len() {
        true
    } else if i >= b.len() {
        false
    } else if a[i as int] as u32 != b[i as int] as u32 {
        (a[i as int] as u32) < (b[i as int] as u32)
    } else {
        lex_le_from(a, b, i + 1)
    }
}

/// Lexicographic order on character sequences; the order of their UTF-8 bytes.
pub open spec fn lex_le(a: Seq<char>, b: Seq<char>) -> bool {
    lex_le_from(a, b, 0)
}

/// Paths ordered by their file names.
pub open spec fn sorted_by_file_name(paths: Seq<Seq<char>>) -> bool {
    forall|i: int, j: int|
        0 <= i < j < paths.len() ==> lex_le(
            sort_name_of(#[trigger] paths[i]),
            sort_name_of(#[trigger] paths[j]),
        )
}

proof fn lemma_lex_total_from(a: Seq<char>, b: Seq<char>, i: nat)
    ensures
        lex_le_from(a, b, i) || lex_le_from(b, a, i),
    decreases a.len() - i,
{
    if i < a.len() && i < b.len() && a[i as int] as u32 == b[i as int] as u32 {
        lemma_lex_total_from(a, b, i + 1);
    }
}

proof fn lemma_lex_trans_from(a: Seq<char>, b: Seq<char>, c: Seq<char>, i: nat)
    requires
        lex_le_from(a, b, i),
        lex_le_from(b, c, i),
    ensures
        lex_le_from(a, c, i),
    decreases a.len() - i,
{
    if i < a.len() && i < b.len() && i < c.len() && a[i as int] as u32 == b[i as int] as u32
        && b[i as int] as u32 == c[i as int] as u32 {
        lemma_lex_trans_from(a, b, c, i + 1);
    }
}

/// The lexicographic order is total.
pub proof fn lemma_lex_total(a: Seq<char>, b: Seq<char>)
    ensures
        lex_le(a, b) || lex_le(b, a),
{
    lemma_lex_total_from(a, b, 0);
}

/// The lexicographic order is transitive.
pub proof fn lemma_lex_trans(a: Seq<char>, b: Seq<char>, c: Seq<char>)
    requires
        lex_le(a, b),
        lex_le(b, c),
    ensures
        lex_le(a, c),
{
    lemma_lex_trans_from(a, b, c, 0);
}

/// Whether `a` comes no later than `b` in lexicographic order.
pub(crate) fn lex_le_exec(a: &String, b: &String) -> (r: bool)
    ensures
        r == lex_le(a@, b@),
{
    let la = a.as_str().unicode_len();
    let lb = b.as_str().unicode_len();
    let mut i: usize = 0;
    while i < la && i < lb
        invariant
            la == a@.len(),
            lb == b@.len(),
            0 <= i <= la,
            i <= lb,
            lex_le(a@, b@) == lex_le_from(a@, b@, i as nat),
        decreases la - i,
    {
        let ca = a.as_str().get_char(i);
        let cb = b.as_str().get_char(i);
        if ca as u32 != cb as u32 {
            return (ca as u32) < (cb as u32);
        }
        i = i + 1;
    }
    i >= la
}

/// The bounds of the last component of `s` once its end is trimmed.
pub(crate) fn name_bounds(s: &str, n: usize) -> (r: (usize, usize))
    requires
        n == s@.len(),
    ensures
        r.0 <= r.1 <= n,
        s@.subrange(r.0 as int, r.1 as int) == last_component(trim_end(s@)),
{
    let mut e: usize = n;
    proof {
        assert(s@.subrange(0, n as int) =~= s@);
    }
    while e > 0
        invariant
            n == s@.len(),
            e <= n,
            trim_end(s@) == trim_end(s@.subrange(0, e as int)),
        ensures
            e <= n,
            trim_end(s@) == trim_end(s@.subrange(0, e as int)),
            !ends_without_name(s@.subrange(0, e as int)),
        decreases e,
    {
        let ghost t = s@.subrange(0, e as int);
        let c = s.get_char(e - 1);
        let trims = if c == '/' {
            true
        } else if c == '.' {
            e == 1 || s.get_char(e - 2) == '/'
        } else {
            false
        };
        proof {
            assert(t.last() == c);
            if e >= 2 {
                assert(t[t.len() - 2] == s@[e - 2]);
            }
            assert(trims == ends_without_name(t));
            assert(t.drop_last() =~= s@.subrange(0, e - 1));
        }
        if !trims {
            break;
        }
        e = e - 1;
    }
    let ghost t = s@.subrange(0, e as int);
    proof {
        assert(trim_end(t) == t);
    }
    let start = match last_index_from(s, e, '/', 0) {
        Some(i) => i + 1,
        None => 0,
    };
    proof {
        assert(s@.subrange(0, e as int) =~= t);
        lemma_last_index_bounds(t, '/');
        assert(last_component(t) =~= s@.subrange(start as int, e as int));
    }
    (start, e)
}

/// Whether `s[start..end]` is `..`.
fn is_parent_name(s: &str, start: usize, end: usize) -> (r: bool)
    requires
        start <= end <= s@.len(),
    ensures
        r == (s@.subrange(start as int, end as int) == ".."@),
{
    proof {
        reveal_strlit("..");
    }
    if end - start != 2 {
        assert(".."@.len() == 2);
        return false;
    }
    let r = s.get_char(start) == '.' && s.get_char(start + 1) == '.';
    proof {
        if r {
            assert(s@.subrange(start as int, end as int) =~= ".."@);
        } else {
            assert(s@.subrange(start as int, end as int) != ".."@) by {
                if s@.subrange(start as int, end as int) == ".."@ {
                    assert(s@.subrange(start as int, end as int)[0] == '.');
                    assert(s@.subrange(start as int, end as int)[1] == '.');
                }
            }
        }
    }
    r
}

/// The bounds of the file name of `s`, if it has one.
pub(crate) fn file_name_bounds(s: &str, n: usize) -> (r: Option<(usize, usize)>)
    requires
        n == s@.len(),
    ensures
        match r {
            Some((a, b)) => a <= b <= n && file_name_of(s@) == Some(
                s@.subrange(a as int, b as int),
            ),
            None => file_name_of(s@) is None,
        },
{
    let (a, b) = name_bounds(s, n);
    if a == b || is_parent_name(s, a, b) {
        None
    } else {
        Some((a, b))
    }
}

/// The key by which `path` is ordered among scripts.
pub(crate) fn file_name(path: &String) -> (r: String)
    ensures
        r@ == sort_name_of(path@),
{
    let s = path.as_str();
    let n = s.unicode_len();
    match file_name_bounds(s, n) {
        Some((a, b)) => s.substring_char(a, b).to_string(),
        None => String::new(),
    }
}

} // verus!
