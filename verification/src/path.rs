//! File paths as the standard library compares them: by their components.
//!
//! On a Unix-like system a path is split at `/`; repeated separators and a
//! trailing one are ignored, a `.` is dropped except as the first component of a
//! relative path, `..` is the parent directory, and a leading `/` is the root.
//! Two paths are equal when their components are, and they are ordered by their
//! components, lexicographically.
use vstd::prelude::*;
use vstd::relations::sorted_by;

use itertools::Itertools;
use std::path::PathBuf;

verus! {

/// A component of a path.
pub enum PathPart {
    RootDir,
    CurDir,
    ParentDir,
    Normal(Seq<char>),
}

/// Lexicographic order of texts by code point (a prefix comes first), which is
/// the order of their UTF-8 bytes.
pub open spec fn text_le(a: Seq<char>, b: Seq<char>) -> bool
    decreases a.len(),
{
    if a.len() == 0 {
        true
    } else if b.len() == 0 {
        false
    } else if a[0] != b[0] {
        (a[0] as int) < (b[0] as int)
    } else {
        text_le(a.drop_first(), b.drop_first())
    }
}

/// The pieces of `p` between separators `/` (empty ones included).
pub open spec fn slash_segments(p: Seq<char>) -> Seq<Seq<char>>
    decreases p.len(),
{
    if p.len() == 0 {
        seq![seq![]]
    } else {
        let rest = slash_segments(p.drop_last());
        if p.last() == '/' {
            rest.push(seq![])
        } else {
            rest.update(rest.len() - 1, rest.last().push(p.last()))
        }
    }
}

/// The component that a piece between separators gives, if any; `first` tells
/// whether it is the first piece of the path.
pub open spec fn segment_part(seg: Seq<char>, first: bool) -> Seq<PathPart> {
    if seg.len() == 0 {
        seq![]
    } else if seg == seq!['.'] {
        if first {
            seq![PathPart::CurDir]
        } else {
            seq![]
        }
    } else if seg == seq!['.', '.'] {
        seq![PathPart::ParentDir]
    } else {
        seq![PathPart::Normal(seg)]
    }
}

/// The components that the first `n` pieces give.
pub open spec fn segment_parts(segs: Seq<Seq<char>>, n: nat) -> Seq<PathPart>
    decreases n,
{
    if n == 0 {
        seq![]
    } else {
        segment_parts(segs, (n - 1) as nat) + segment_part(segs[n - 1], n == 1)
    }
}

/// The components of a path.
pub open spec fn path_components(p: Seq<char>) -> Seq<PathPart> {
    let segs = slash_segments(p);
    (if p.len() > 0 && p[0] == '/' {
        seq![PathPart::RootDir]
    } else {
        seq![]
    }) + segment_parts(segs, segs.len())
}

/// Whether two path texts name the same path.
pub open spec fn same_path(a: Seq<char>, b: Seq<char>) -> bool {
    path_components(a) == path_components(b)
}

/// The rank of a component kind: the root, then `.`, then `..`, then names.
pub open spec fn part_rank(p: PathPart) -> int {
    match p {
        PathPart::RootDir => 0,
        PathPart::CurDir => 1,
        PathPart::ParentDir => 2,
        PathPart::Normal(_) => 3,
    }
}

/// The order of components: by kind, and names by their text.
pub open spec fn part_le(a: PathPart, b: PathPart) -> bool {
    if part_rank(a) != part_rank(b) {
        part_rank(a) < part_rank(b)
    } else {
        match (a, b) {
            (PathPart::Normal(x), PathPart::Normal(y)) => text_le(x, y),
            _ => true,
        }
    }
}

/// Lexicographic order of component lists (a prefix comes first).
pub open spec fn parts_le(x: Seq<PathPart>, y: Seq<PathPart>) -> bool
    decreases x.len(),
{
    if x.len() == 0 {
        true
    } else if y.len() == 0 {
        false
    } else if x[0] != y[0] {
        part_le(x[0], y[0])
    } else {
        parts_le(x.drop_first(), y.drop_first())
    }
}

/// The order of paths.
pub open spec fn path_le(a: Seq<char>, b: Seq<char>) -> bool {
    parts_le(path_components(a), path_components(b))
}

/// `path_le` as a relation.
pub open spec fn path_order() -> spec_fn(Seq<char>, Seq<char>) -> bool {
    |a: Seq<char>, b: Seq<char>| path_le(a, b)
}

/// The texts of `s` whose path does not occur earlier in `s`, in order.
pub open spec fn first_path_occurrences(s: Seq<Seq<char>>) -> Seq<Seq<char>>
    decreases s.len(),
{
    if s.len() == 0 {
        seq![]
    } else {
        let rest = first_path_occurrences(s.drop_last());
        if exists|i: int| 0 <= i < rest.len() && same_path(#[trigger] rest[i], s.last()) {
            rest
        } else {
            rest.push(s.last())
        }
    }
}

proof fn lemma_text_le_antisymmetric(a: Seq<char>, b: Seq<char>)
    requires
        text_le(a, b),
        text_le(b, a),
    ensures
        a == b,
    decreases a.len(),
{
    if a.len() == 0 || b.len() == 0 {
        assert(a =~= b);
    } else if a[0] != b[0] {
        assert((a[0] as int) != (b[0] as int));
    } else {
        lemma_text_le_antisymmetric(a.drop_first(), b.drop_first());
        assert(a =~= seq![a[0]] + a.drop_first());
        assert(b =~= seq![b[0]] + b.drop_first());
    }
}

proof fn lemma_parts_le_antisymmetric(x: Seq<PathPart>, y: Seq<PathPart>)
    requires
        parts_le(x, y),
        parts_le(y, x),
    ensures
        x == y,
    decreases x.len(),
{
    if x.len() == 0 || y.len() == 0 {
        assert(x =~= y);
    } else if x[0] != y[0] {
        match (x[0], y[0]) {
            (PathPart::Normal(a), PathPart::Normal(b)) => {
                lemma_text_le_antisymmetric(a, b);
            },
            _ => {},
        }
    } else {
        lemma_parts_le_antisymmetric(x.drop_first(), y.drop_first());
        assert(x =~= seq![x[0]] + x.drop_first());
        assert(y =~= seq![y[0]] + y.drop_first());
    }
}

/// Paths that come before each other are the same path.
pub proof fn lemma_path_le_antisymmetric(a: Seq<char>, b: Seq<char>)
    requires
        path_le(a, b),
        path_le(b, a),
    ensures
        same_path(a, b),
{
    lemma_parts_le_antisymmetric(path_components(a), path_components(b));
}

/// The first occurrences are taken from `s`, cover every path of `s`, and name
/// distinct paths.
pub proof fn lemma_first_path_occurrences(s: Seq<Seq<char>>)
    ensures
        forall|x: Seq<char>| #[trigger] first_path_occurrences(s).contains(x) ==> s.contains(x),
        forall|x: Seq<char>|
            #[trigger] s.contains(x) ==> exists|i: int|
                0 <= i < first_path_occurrences(s).len() && same_path(
                    #[trigger] first_path_occurrences(s)[i],
                    x,
                ),
        forall|i: int, j: int|
            0 <= i < j < first_path_occurrences(s).len() ==> !same_path(
                #[trigger] first_path_occurrences(s)[i],
                #[trigger] first_path_occurrences(s)[j],
            ),
    decreases s.len(),
{
    if s.len() > 0 {
        let init = s.drop_last();
        let rest = first_path_occurrences(init);
        let whole = first_path_occurrences(s);
        lemma_first_path_occurrences(init);
        let found = exists|i: int| 0 <= i < rest.len() && same_path(#[trigger] rest[i], s.last());
        assert(whole == if found { rest } else { rest.push(s.last()) });
        assert forall|x: Seq<char>| #[trigger] whole.contains(x) implies s.contains(x) by {
            let j = choose|j: int| 0 <= j < whole.len() && whole[j] == x;
            if j < rest.len() {
                assert(rest[j] == x);
                assert(rest.contains(x));
                let i = choose|i: int| 0 <= i < init.len() && init[i] == x;
                assert(s[i] == x);
            } else {
                assert(s[s.len() - 1] == x);
            }
        }
        assert forall|x: Seq<char>| #[trigger] s.contains(x) implies exists|i: int|
            0 <= i < whole.len() && same_path(#[trigger] whole[i], x) by {
            let k = choose|k: int| 0 <= k < s.len() && s[k] == x;
            if k < init.len() {
                assert(init[k] == x);
                assert(init.contains(x));
                let i = choose|i: int| 0 <= i < rest.len() && same_path(#[trigger] rest[i], x);
                assert(whole[i] == rest[i]);
            } else if found {
                let i = choose|i: int| 0 <= i < rest.len() && same_path(#[trigger] rest[i], s.last());
                assert(whole[i] == rest[i]);
            } else {
                assert(whole[rest.len() as int] == x);
            }
        }
        assert forall|i: int, j: int| 0 <= i < j < whole.len() implies !same_path(
            #[trigger] whole[i],
            #[trigger] whole[j],
        ) by {
            if j < rest.len() {
                assert(whole[i] == rest[i] && whole[j] == rest[j]);
            } else {
                assert(!found);
                assert(whole[i] == rest[i]);
                assert(whole[j] == s.last());
            }
        }
    }
}

/// Two sequences sorted by path, holding the same texts, none two of which name
/// the same path, are equal.
pub proof fn lemma_path_sorted_unique(x: Seq<Seq<char>>, y: Seq<Seq<char>>)
    requires
        sorted_by(x, path_order()),
        sorted_by(y, path_order()),
        x.to_multiset() == y.to_multiset(),
        forall|a: Seq<char>, b: Seq<char>|
            x.contains(a) && x.contains(b) && same_path(a, b) ==> a == b,
    ensures
        x == y,
    decreases x.len(),
{
    broadcast use vstd::multiset::group_multiset_axioms;
    broadcast use vstd::seq_lib::group_to_multiset_ensures;

    if x.len() == 0 || y.len() == 0 {
        assert(x.len() == x.to_multiset().len());
        assert(y.len() == y.to_multiset().len());
        assert(x =~= y);
    } else {
        assert(x.contains(x[0]) && y.contains(y[0]));
        assert(x.to_multiset().count(x[0]) > 0);
        assert(y.to_multiset().count(y[0]) > 0);
        assert(y.contains(x[0]));
        assert(x.contains(y[0]));
        let i = choose|i: int| 0 <= i < x.len() && x[i] == y[0];
        let k = choose|k: int| 0 <= k < y.len() && y[k] == x[0];
        if i != 0 {
            assert(path_order()(x[0], x[i]));
        }
        if k != 0 {
            assert(path_order()(y[0], y[k]));
        }
        if i != 0 && k != 0 {
            lemma_path_le_antisymmetric(x[0], y[0]);
            assert(x.contains(x[0]));
        }
        assert(x[0] == y[0]);
        assert(x.remove(0) =~= x.drop_first());
        assert(y.remove(0) =~= y.drop_first());
        assert(x.drop_first().to_multiset() =~= x.to_multiset().remove(x[0]));
        assert(y.drop_first().to_multiset() =~= y.to_multiset().remove(y[0]));
        assert forall|a: Seq<char>, b: Seq<char>|
            x.drop_first().contains(a) && x.drop_first().contains(b) && same_path(a, b) implies a
            == b by {
            let p = choose|p: int| 0 <= p < x.drop_first().len() && x.drop_first()[p] == a;
            let q = choose|q: int| 0 <= q < x.drop_first().len() && x.drop_first()[q] == b;
            assert(x[p + 1] == a && x[q + 1] == b);
            assert(x.contains(a) && x.contains(b));
        }
        lemma_path_sorted_unique(x.drop_first(), y.drop_first());
        assert(x =~= seq![x[0]] + x.drop_first());
        assert(y =~= seq![y[0]] + y.drop_first());
    }
}

/// Drops texts whose path occurred earlier, with `Itertools::unique_by` keyed by
/// `PathBuf` (whose equality compares components). The contract states what the
/// documentation of both says, on a Unix-like system: each text is kept where its
/// path first occurs, in order.
#[verifier::external_body]
pub(crate) fn unique_paths(items: &Vec<String>) -> (unique: Vec<String>)
    ensures
        unique.deep_view() == first_path_occurrences(items.deep_view()),
{
    items.iter().unique_by(|s| PathBuf::from(s.as_str())).cloned().collect()
}

/// Sorts texts as paths with `slice::sort_by_key`, keyed by `PathBuf` (whose order
/// compares components). The contract states that the result is a permutation of
/// the input, sorted by `path_le`, on a Unix-like system.
#[verifier::external_body]
pub(crate) fn sort_paths(items: &mut Vec<String>)
    ensures
        final(items).deep_view().to_multiset() == old(items).deep_view().to_multiset(),
        sorted_by(final(items).deep_view(), path_order()),
{
    items.sort_by_key(|s| PathBuf::from(s.as_str()))
}

} // verus!
