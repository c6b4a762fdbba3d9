//! Substring search and splitting over character sequences, as `str::find`
//! and `str::split` do them.
use vstd::prelude::*;

use crate::text::slice_range;

verus! {

/// First position at or after `i` where `p` occurs in `s`.
pub open spec fn find_from(s: Seq<char>, p: Seq<char>, i: int) -> Option<int>
    decreases s.len() + 1 - i,
{
    if i < 0 || i + p.len() > s.len() {
        None
    } else if s.subrange(i, i + p.len()) == p {
        Some(i)
    } else {
        find_from(s, p, i + 1)
    }
}

/// `p` occurs in `s` at position `k`.
pub open spec fn occurs_at(s: Seq<char>, p: Seq<char>, k: int) -> bool {
    0 <= k && k + p.len() <= s.len() && s.subrange(k, k + p.len()) == p
}

/// A found position is an occurrence, at or after the start, with none
/// before it; `None` means no occurrence at or after the start.
pub proof fn lemma_find_from_found(s: Seq<char>, p: Seq<char>, i: int)
    requires
        0 <= i,
    ensures
        match find_from(s, p, i) {
            Some(k) => i <= k && occurs_at(s, p, k) && forall|j: int| i <= j < k ==> !occurs_at(s, p, j),
            None => forall|j: int| i <= j ==> !occurs_at(s, p, j),
        },
    decreases s.len() + 1 - i,
{
    if i + p.len() > s.len() {
    } else if s.subrange(i, i + p.len()) == p {
    } else {
        lemma_find_from_found(s, p, i + 1);
    }
}

/// The search from `i` gives the first occurrence at or after `i`.
pub proof fn lemma_find_from_first(s: Seq<char>, p: Seq<char>, i: int, k: int)
    requires
        0 <= i <= k,
        occurs_at(s, p, k),
        forall|j: int| i <= j < k ==> !occurs_at(s, p, j),
    ensures
        find_from(s, p, i) == Some(k),
    decreases k - i,
{
    if i < k {
        assert(!occurs_at(s, p, i));
        lemma_find_from_first(s, p, i + 1, k);
    }
}

/// Positions whose character differs from the first character of the pattern
/// can be skipped.
pub proof fn lemma_find_from_skip(s: Seq<char>, p: Seq<char>, i: int, k: int)
    requires
        0 <= i <= k <= s.len(),
        p.len() > 0,
        forall|j: int| i <= j < k ==> s[j] != p[0],
    ensures
        find_from(s, p, i) == find_from(s, p, k),
    decreases k - i,
{
    if i < k {
        if i + p.len() <= s.len() {
            assert(s.subrange(i, i + p.len())[0] == s[i]);
        }
        lemma_find_from_skip(s, p, i + 1, k);
        if i + p.len() > s.len() {
            assert(k + p.len() > s.len());
        }
    }
}

/// One position that is no occurrence can be skipped.
pub proof fn lemma_find_from_miss(s: Seq<char>, p: Seq<char>, i: int)
    requires
        0 <= i,
        !occurs_at(s, p, i),
    ensures
        find_from(s, p, i) == find_from(s, p, i + 1),
{
    if i + p.len() > s.len() {
        assert(find_from(s, p, i + 1) is None);
    }
}

/// Positions where the first two characters of the pattern do not both
/// occur can be skipped.
pub proof fn lemma_find_from_skip_pairs(s: Seq<char>, p: Seq<char>, i: int, k: int)
    requires
        0 <= i <= k,
        p.len() >= 2,
        forall|j: int| i <= j < k && j + 1 < s.len() ==> !(#[trigger] s[j] == p[0] && s[j + 1] == p[1]),
    ensures
        find_from(s, p, i) == find_from(s, p, k),
    decreases k - i,
{
    if i < k {
        if occurs_at(s, p, i) {
            assert(s.subrange(i, i + p.len())[0] == s[i]);
            assert(s.subrange(i, i + p.len())[1] == s[i + 1]);
        }
        lemma_find_from_miss(s, p, i);
        lemma_find_from_skip_pairs(s, p, i + 1, k);
    }
}

/// Positions where the first three characters of the pattern do not all
/// occur can be skipped.
pub proof fn lemma_find_from_skip_triples(s: Seq<char>, p: Seq<char>, i: int, k: int)
    requires
        0 <= i <= k,
        p.len() >= 3,
        forall|j: int| i <= j < k && j + 2 < s.len() ==> !(#[trigger] s[j] == p[0] && s[j + 1] == p[1] && s[j + 2] == p[2]),
    ensures
        find_from(s, p, i) == find_from(s, p, k),
    decreases k - i,
{
    if i < k {
        if occurs_at(s, p, i) {
            assert(s.subrange(i, i + p.len())[0] == s[i]);
            assert(s.subrange(i, i + p.len())[1] == s[i + 1]);
            assert(s.subrange(i, i + p.len())[2] == s[i + 2]);
        }
        lemma_find_from_miss(s, p, i);
        lemma_find_from_skip_triples(s, p, i + 1, k);
    }
}

/// An occurrence is found where the search starts.
pub proof fn lemma_find_from_here(s: Seq<char>, p: Seq<char>, k: int)
    requires
        0 <= k,
        k + p.len() <= s.len(),
        s.subrange(k, k + p.len()) == p,
    ensures
        find_from(s, p, k) == Some(k),
{
}

/// Whether `p` occurs in `s` at position `i`.
pub fn occurs_at_exec(s: &[char], p: &[char], i: usize) -> (r: bool)
    ensures
        r == occurs_at(s@, p@, i as int),
{
    if i > s.len() || p.len() > s.len() - i {
        return false;
    }
    let mut j: usize = 0;
    while j < p.len()
        invariant
            i + p.len() <= s.len(),
            j <= p.len(),
            forall|t: int| 0 <= t < j ==> s@[i + t] == p@[t],
        decreases p.len() - j,
    {
        if s[i + j] != p[j] {
            assert(s@.subrange(i as int, i + p.len())[j as int] != p@[j as int]);
            return false;
        }
        j = j + 1;
    }
    assert(s@.subrange(i as int, i + p.len()) =~= p@);
    true
}

/// `str::find` of `p` in `s`, starting at position `from`.
pub fn find_seq(s: &[char], p: &[char], from: usize) -> (r: Option<usize>)
    ensures
        match r {
            Some(k) => find_from(s@, p@, from as int) == Some(k as int) && from <= k && k + p.len() <= s.len(),
            None => find_from(s@, p@, from as int) is None,
        },
{
    let mut i = from;
    while i <= s.len() && p.len() <= s.len() - i
        invariant
            from <= i,
            find_from(s@, p@, from as int) == find_from(s@, p@, i as int),
        decreases s.len() + 1 - i,
    {
        if occurs_at_exec(s, p, i) {
            return Some(i);
        }
        proof {
            lemma_find_from_miss(s@, p@, i as int);
            if i == s.len() {
                assert(s@.subrange(i as int, i as int) =~= p@);
            }
        }
        i = i + 1;
    }
    None
}

/// The pieces of `s` between occurrences of `c` (`str::split`).
pub open spec fn split_parts(s: Seq<char>, c: char) -> Seq<Seq<char>>
    decreases s.len(),
{
    match find_from(s, seq![c], 0) {
        Some(i) => if 0 <= i < s.len() {
            seq![s.subrange(0, i)] + split_parts(s.subrange(i + 1, s.len() as int), c)
        } else {
            seq![s]
        },
        None => seq![s],
    }
}

/// A piece between separators holds no separator.
pub proof fn lemma_split_none(s: Seq<char>, c: char)
    requires
        forall|i: int| 0 <= i < s.len() ==> s[i] != c,
    ensures
        split_parts(s, c) == seq![s],
{
    lemma_find_from_skip(s, seq![c], 0, s.len() as int);
}

/// Splitting `a`, a separator, then `b`, where `a` holds no separator.
pub proof fn lemma_split_cons(a: Seq<char>, c: char, b: Seq<char>)
    requires
        forall|i: int| 0 <= i < a.len() ==> a[i] != c,
    ensures
        split_parts(a + seq![c] + b, c) == seq![a] + split_parts(b, c),
{
    let s = a + seq![c] + b;
    assert forall|j: int| 0 <= j < a.len() implies s[j] != seq![c][0] by {
        assert(s[j] == a[j]);
    }
    lemma_find_from_skip(s, seq![c], 0, a.len() as int);
    assert(s.subrange(a.len() as int, a.len() + 1 as int) =~= seq![c]);
    assert(s.subrange(0, a.len() as int) =~= a);
    assert(s.subrange(a.len() + 1 as int, s.len() as int) =~= b);
}

/// The view of a list of character vectors.
pub open spec fn pieces_view(v: Seq<Vec<char>>) -> Seq<Seq<char>> {
    v.map_values(|x: Vec<char>| x@)
}

/// Appends to `out` the pieces of `s` split at every `c`.
pub fn push_split(out: &mut Vec<Vec<char>>, s: &[char], c: char)
    ensures
        pieces_view(final(out)@) == pieces_view(old(out)@) + split_parts(s@, c),
    decreases s.len(),
{
    let sep = [c];
    assert(sep@ =~= seq![c]);
    match find_seq(s, &sep, 0) {
        Some(i) => {
            proof {
                lemma_find_from_found(s@, seq![c], 0);
            }
            let head = slice_range(s, 0, i);
            let tail = slice_range(s, i + 1, s.len());
            let ghost before = out@;
            out.push(head);
            assert(pieces_view(out@) =~= pieces_view(before) + seq![s@.subrange(0, i as int)]);
            push_split(out, tail.as_slice(), c);
            assert(pieces_view(out@) =~= pieces_view(before) + split_parts(s@, c));
        },
        None => {
            let ghost before = out@;
            out.push(slice_range(s, 0, s.len()));
            assert(s@.subrange(0, s@.len() as int) =~= s@);
            assert(pieces_view(out@) =~= pieces_view(before) + split_parts(s@, c));
        },
    }
}

/// `s` split at every `c`.
pub fn split_chars(s: &[char], c: char) -> (r: Vec<Vec<char>>)
    ensures
        pieces_view(r@) == split_parts(s@, c),
{
    let mut r: Vec<Vec<char>> = Vec::new();
    push_split(&mut r, s, c);
    assert(pieces_view(Seq::<Vec<char>>::empty()) =~= Seq::<Seq<char>>::empty());
    assert(Seq::<Seq<char>>::empty() + split_parts(s@, c) =~= split_parts(s@, c));
    r
}

} // verus!
