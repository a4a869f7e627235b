//! Stable ordering of scored candidates, best first.

use vstd::prelude::*;
use crate::spider_solver::{cand_view, cands_view, ScoredBoard, SpiderCandidate};

verus! {

/// Inserts `x` after every element scoring at least as high.
pub open spec fn insert_desc(s: Seq<ScoredBoard>, x: ScoredBoard) -> Seq<ScoredBoard>
    decreases s.len(),
{
    if s.len() == 0 {
        seq![x]
    } else if s.last().2 >= x.2 {
        s.push(x)
    } else {
        insert_desc(s.drop_last(), x).push(s.last())
    }
}

/// Stable sort by descending score: higher scores first, ties keep their order.
pub open spec fn sort_desc(s: Seq<ScoredBoard>) -> Seq<ScoredBoard>
    decreases s.len(),
{
    if s.len() == 0 {
        Seq::empty()
    } else {
        insert_desc(sort_desc(s.drop_last()), s.last())
    }
}

pub open spec fn sorted_desc(s: Seq<ScoredBoard>) -> bool {
    forall|i: int, j: int| 0 <= i < j < s.len() ==> (#[trigger] s[i]).2 >= (#[trigger] s[j]).2
}

proof fn lemma_insert_at(s: Seq<ScoredBoard>, x: ScoredBoard, j: int)
    requires
        0 <= j <= s.len(),
        forall|k: int| j <= k < s.len() ==> (#[trigger] s[k]).2 < x.2,
        j > 0 ==> s[j - 1].2 >= x.2,
    ensures
        insert_desc(s, x) == s.take(j).push(x) + s.skip(j),
    decreases s.len(),
{
    if s.len() == 0 {
        assert(s.take(j).push(x) + s.skip(j) =~= seq![x]);
    } else if j == s.len() {
        assert(s.take(j).push(x) + s.skip(j) =~= s.push(x));
    } else {
        let d = s.drop_last();
        lemma_insert_at(d, x, j);
        assert(insert_desc(s, x) == insert_desc(d, x).push(s.last()));
        assert((d.take(j).push(x) + d.skip(j)).push(s.last()) =~= s.take(j).push(x) + s.skip(j));
    }
}

/// Law: the stable descending sort puts higher scores first and keeps every element.
pub proof fn lemma_sort_desc_sorted(s: Seq<ScoredBoard>)
    ensures
        sorted_desc(sort_desc(s)),
        sort_desc(s).len() == s.len(),
        sort_desc(s).to_multiset() == s.to_multiset(),
    decreases s.len(),
{
    if s.len() > 0 {
        lemma_sort_desc_sorted(s.drop_last());
        lemma_insert_desc_sorted(sort_desc(s.drop_last()), s.last());
        assert(s =~= s.drop_last().push(s.last()));
        vstd::seq_lib::to_multiset_build(s.drop_last(), s.last());
        assert(sort_desc(s) == insert_desc(sort_desc(s.drop_last()), s.last()));
        assert(s.to_multiset() == s.drop_last().to_multiset().insert(s.last()));
        assert(sort_desc(s).to_multiset() == sort_desc(s.drop_last()).to_multiset().insert(s.last()));
    } else {
        assert(s =~= Seq::<ScoredBoard>::empty());
    }
}

proof fn lemma_insert_desc_sorted(s: Seq<ScoredBoard>, x: ScoredBoard)
    requires
        sorted_desc(s),
    ensures
        sorted_desc(insert_desc(s, x)),
        insert_desc(s, x).len() == s.len() + 1,
        insert_desc(s, x).to_multiset() == s.to_multiset().insert(x),
        forall|k: int| 0 <= k < insert_desc(s, x).len() ==> (#[trigger] insert_desc(s, x)[k]).2 >= x.2
            || (exists|m: int| 0 <= m < s.len() && s[m] == insert_desc(s, x)[k]),
    decreases s.len(),
{
    broadcast use vstd::seq_lib::group_to_multiset_ensures;
    if s.len() == 0 {
    } else if s.last().2 >= x.2 {
        let r = s.push(x);
        assert forall|i: int, j: int| 0 <= i < j < r.len() implies (#[trigger] r[i]).2 >= (#[trigger] r[j]).2 by {
            if j < s.len() {
                assert(s[i].2 >= s[j].2);
            } else if i < s.len() - 1 {
                assert(s[i].2 >= s[s.len() - 1].2);
            }
        }
        assert forall|k: int| 0 <= k < r.len() implies (#[trigger] r[k]).2 >= x.2 || (exists|m: int| 0 <= m < s.len() && s[m] == r[k]) by {
            if k < s.len() {
                assert(s[k] == r[k]);
            }
        }
    } else {
        let d = s.drop_last();
        assert(sorted_desc(d)) by {
            assert forall|i: int, j: int| 0 <= i < j < d.len() implies (#[trigger] d[i]).2 >= (#[trigger] d[j]).2 by {
                assert(s[i].2 >= s[j].2);
            }
        }
        lemma_insert_desc_sorted(d, x);
        let inner = insert_desc(d, x);
        let r = inner.push(s.last());
        assert forall|i: int, j: int| 0 <= i < j < r.len() implies (#[trigger] r[i]).2 >= (#[trigger] r[j]).2 by {
            if j < inner.len() {
                assert(inner[i].2 >= inner[j].2);
            } else {
                let v = inner[i];
                if v.2 >= x.2 {
                } else {
                    let m = choose|m: int| 0 <= m < d.len() && d[m] == v;
                    assert(s[m].2 >= s[s.len() - 1].2);
                }
            }
        }
        assert forall|k: int| 0 <= k < r.len() implies (#[trigger] r[k]).2 >= x.2 || (exists|m: int| 0 <= m < s.len() && s[m] == r[k]) by {
            if k < inner.len() {
                if inner[k].2 < x.2 {
                    let m = choose|m: int| 0 <= m < d.len() && d[m] == inner[k];
                    assert(s[m] == r[k]);
                }
            } else {
                assert(s[s.len() - 1] == r[k]);
            }
        }
        assert(s =~= d.push(s.last()));
    }
}

/// Inserts `x` after the last element of `out` scoring at least as high.
fn insert_by_score(out: &mut Vec<SpiderCandidate>, x: SpiderCandidate)
    ensures
        cands_view(final(out)@) == insert_desc(cands_view(old(out)@), cand_view(x)),
{
    let ghost s = cands_view(out@);
    let mut j = out.len();
    while j > 0 && out[j - 1].2 < x.2
        invariant
            j <= out@.len(),
            s == cands_view(out@),
            forall|k: int| j <= k < out@.len() ==> (#[trigger] out@[k]).2 < x.2,
        decreases j,
    {
        j -= 1;
    }
    proof {
        assert forall|k: int| j <= k < s.len() implies (#[trigger] s[k]).2 < cand_view(x).2 by {
            assert(s[k] == cand_view(out@[k]));
        }
        if j > 0 {
            assert(s[j - 1] == cand_view(out@[j - 1]));
        }
        lemma_insert_at(s, cand_view(x), j as int);
    }
    let ghost before = out@;
    out.insert(j, x);
    assert(cands_view(out@) =~= s.take(j as int).push(cand_view(x)) + s.skip(j as int)) by {
        assert(out@ =~= before.take(j as int).push(x) + before.skip(j as int));
    }
}

/// Stable sort of candidates by descending score.
pub fn sort_candidates_desc(v: Vec<SpiderCandidate>) -> (r: Vec<SpiderCandidate>)
    ensures
        cands_view(r@) == sort_desc(cands_view(v@)),
{
    let ghost orig = v@;
    let n = v.len();
    let mut v = v;
    let mut out: Vec<SpiderCandidate> = Vec::new();
    let mut k: usize = 0;
    while v.len() > 0
        invariant
            orig.len() == n,
            k <= orig.len(),
            v@ == orig.skip(k as int),
            cands_view(out@) == sort_desc(cands_view(orig.take(k as int))),
        decreases v@.len(),
    {
        let x = v.remove(0);
        assert(x == orig[k as int]);
        let ghost before = out@;
        insert_by_score(&mut out, x);
        proof {
            let t1 = orig.take(k + 1);
            assert(t1.drop_last() =~= orig.take(k as int));
            assert(cands_view(t1).drop_last() =~= cands_view(orig.take(k as int)));
            assert(cands_view(t1).last() == cand_view(x));
            assert(v@ =~= orig.skip(k + 1));
        }
        k += 1;
    }
    assert(orig.take(k as int) =~= orig);
    out
}

} // verus!
