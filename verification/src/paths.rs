//! The files that hold a match, each listed once and in order.

use vstd::prelude::*;
use crate::order::{
    lemma_text_less_irreflexive, lemma_text_less_total, lemma_text_less_transitive,
    strictly_sorted, text_before, text_less,
};
use crate::types::{MatchView, RipgrepMatch};

verus! {

/// The paths of the matching lines, one for each line.
pub open spec fn listed_paths(matches: Seq<MatchView>) -> Seq<Seq<char>> {
    matches.map_values(|entry: MatchView| entry.path)
}

/// The two lists hold the same texts, however often and in whatever order.
pub open spec fn same_members(a: Seq<Seq<char>>, b: Seq<Seq<char>>) -> bool {
    forall|text: Seq<char>| a.contains(text) <==> b.contains(text)
}

/// Two lists in strictly rising order that hold the same texts are the same
/// list.
pub proof fn lemma_sorted_members_unique(a: Seq<Seq<char>>, b: Seq<Seq<char>>)
    requires
        strictly_sorted(a),
        strictly_sorted(b),
        same_members(a, b),
    ensures
        a == b,
    decreases a.len(),
{
    if a.len() == 0 {
        if b.len() > 0 {
            assert(b.contains(b[0]));
        }
        assert(a == b);
    } else {
        assert(a.contains(a.last()));
        assert(b.len() > 0);
        assert(b.contains(b.last()));
        let i = choose|i: int| 0 <= i < b.len() && b[i] == a.last();
        let j = choose|j: int| 0 <= j < a.len() && a[j] == b.last();
        // the largest texts agree
        if i < b.len() - 1 {
            if j < a.len() - 1 {
                lemma_text_less_transitive(a[j], a.last(), b.last());
            }
            lemma_text_less_irreflexive(b.last());
        }
        assert(a.last() == b.last());
        let a0 = a.drop_last();
        let b0 = b.drop_last();
        assert forall|text: Seq<char>| a0.contains(text) <==> b0.contains(text) by {
            if a0.contains(text) {
                let k = choose|k: int| 0 <= k < a0.len() && a0[k] == text;
                assert(a[k] == text);
                assert(a.contains(text));
                let m = choose|m: int| 0 <= m < b.len() && b[m] == text;
                if m == b.len() - 1 {
                    lemma_text_less_irreflexive(text);
                }
                assert(b0[m] == text);
            }
            if b0.contains(text) {
                let k = choose|k: int| 0 <= k < b0.len() && b0[k] == text;
                assert(b[k] == text);
                assert(b.contains(text));
                let m = choose|m: int| 0 <= m < a.len() && a[m] == text;
                if m == a.len() - 1 {
                    lemma_text_less_irreflexive(text);
                }
                assert(a0[m] == text);
            }
        }
        lemma_sorted_members_unique(a0, b0);
        assert(a == a0.push(a.last()));
        assert(b == b0.push(b.last()));
    }
}

/// Finds the place of a path in a list in strictly rising order: what stands
/// before the place comes before the path, and what stands at or after it
/// does not.
fn lower_bound(sorted: &Vec<String>, path: &str) -> (pos: usize)
    requires
        strictly_sorted(sorted.deep_view()),
    ensures
        pos <= sorted.len(),
        forall|k: int| 0 <= k < pos ==> text_less(#[trigger] sorted.deep_view()[k], path@),
        forall|k: int|
            pos <= k < sorted.len() ==> !text_less(#[trigger] sorted.deep_view()[k], path@),
{
    let ghost texts = sorted.deep_view();
    let mut lo: usize = 0;
    let mut hi: usize = sorted.len();
    while lo < hi
        invariant
            lo <= hi <= sorted.len(),
            texts == sorted.deep_view(),
            texts.len() == sorted.len(),
            strictly_sorted(texts),
            forall|k: int| 0 <= k < lo ==> text_less(#[trigger] texts[k], path@),
            forall|k: int| hi <= k < texts.len() ==> !text_less(#[trigger] texts[k], path@),
        decreases hi - lo,
    {
        let mid: usize = lo + (hi - lo) / 2;
        assert(texts[mid as int] == sorted@[mid as int]@);
        if text_before(sorted[mid].as_str(), path) {
            proof {
                assert forall|k: int| 0 <= k < mid + 1 implies text_less(
                    #[trigger] texts[k],
                    path@,
                ) by {
                    if k < mid {
                        lemma_text_less_transitive(texts[k], texts[mid as int], path@);
                    }
                }
            }
            lo = mid + 1;
        } else {
            proof {
                assert forall|k: int| mid <= k < texts.len() implies !text_less(
                    #[trigger] texts[k],
                    path@,
                ) by {
                    if k > mid && text_less(texts[k], path@) {
                        lemma_text_less_transitive(texts[mid as int], texts[k], path@);
                    }
                }
            }
            hi = mid;
        }
    }
    lo
}

/// Puts a path into a list in strictly rising order, unless it is there.
fn insert_path(sorted: &mut Vec<String>, path: &str)
    requires
        strictly_sorted(old(sorted).deep_view()),
    ensures
        strictly_sorted(final(sorted).deep_view()),
        forall|text: Seq<char>|
            final(sorted).deep_view().contains(text) <==> (old(sorted).deep_view().contains(text)
                || text == path@),
{
    let ghost before = sorted.deep_view();
    let pos: usize = lower_bound(sorted, path);
    let present = pos < sorted.len() && !text_before(path, sorted[pos].as_str());
    if present {
        proof {
            assert(before[pos as int] == sorted@[pos as int]@);
            lemma_text_less_total(before[pos as int], path@);
            assert(before.contains(path@));
        }
    } else {
        sorted.insert(pos, path.to_owned());
        proof {
            let after = sorted.deep_view();
            assert(after == before.insert(pos as int, path@));
            assert forall|i: int, j: int| 0 <= i < j < after.len() implies text_less(
                #[trigger] after[i],
                #[trigger] after[j],
            ) by {
                if j < pos {
                    assert(after[i] == before[i] && after[j] == before[j]);
                } else if j == pos {
                    assert(after[i] == before[i]);
                } else if i < pos {
                    assert(after[i] == before[i] && after[j] == before[j - 1]);
                } else if i == pos {
                    assert(after[j] == before[j - 1]);
                    assert(before[pos as int] == old(sorted)@[pos as int]@);
                    if j - 1 > pos {
                        lemma_text_less_transitive(path@, before[pos as int], before[j - 1]);
                    }
                } else {
                    assert(after[i] == before[i - 1] && after[j] == before[j - 1]);
                }
            }
            assert forall|text: Seq<char>| after.contains(text) <==> (before.contains(text)
                || text == path@) by {
                if after.contains(text) {
                    let k = choose|k: int| 0 <= k < after.len() && after[k] == text;
                    if k < pos {
                        assert(before[k] == text);
                    } else if k > pos {
                        assert(before[k - 1] == text);
                    }
                }
                if before.contains(text) {
                    let k = choose|k: int| 0 <= k < before.len() && before[k] == text;
                    if k < pos {
                        assert(after[k] == text);
                    } else {
                        assert(after[k + 1] == text);
                    }
                }
                if text == path@ {
                    assert(after[pos as int] == text);
                }
            }
        }
    }
}

/// Lists the files that hold a matching line: each path once, in the rising
/// order of its bytes.
pub fn matched_paths(matches: &Vec<RipgrepMatch>) -> (paths: Vec<String>)
    ensures
        strictly_sorted(paths.deep_view()),
        same_members(paths.deep_view(), listed_paths(matches.deep_view())),
{
    let mut paths: Vec<String> = Vec::new();
    let ghost listed = listed_paths(matches.deep_view());
    let mut i: usize = 0;
    while i < matches.len()
        invariant
            i <= matches.len(),
            listed == listed_paths(matches.deep_view()),
            listed.len() == matches.len(),
            strictly_sorted(paths.deep_view()),
            same_members(paths.deep_view(), listed.take(i as int)),
        decreases matches.len() - i,
    {
        let ghost before = paths.deep_view();
        insert_path(&mut paths, matches[i].path.as_str());
        proof {
            let path = matches@[i as int].path@;
            assert(listed[i as int] == path);
            let shorter = listed.take(i as int);
            let longer = listed.take(i + 1);
            assert forall|text: Seq<char>| paths.deep_view().contains(text) <==> longer.contains(
                text,
            ) by {
                if longer.contains(text) {
                    let k = choose|k: int| 0 <= k < longer.len() && longer[k] == text;
                    if k < i {
                        assert(shorter[k] == text);
                        assert(shorter.contains(text));
                    }
                }
                if shorter.contains(text) {
                    let k = choose|k: int| 0 <= k < shorter.len() && shorter[k] == text;
                    assert(longer[k] == text);
                }
                if text == path {
                    assert(longer[i as int] == text);
                }
            }
        }
        i = i + 1;
    }
    assert(listed.take(i as int) == listed);
    paths
}

} // verus!
