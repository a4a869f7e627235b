//! A binary max-heap of search entries: highest priority first, and among
//! equal priorities the entry pushed first (lowest serial).

use vstd::prelude::*;
use vstd::multiset::Multiset;

verus! {

/// A search entry: priority, serial number, and the slot of its position.
pub type FrontierEntry = (i64, u64, usize);

/// `a` comes out of the frontier before `b`.
pub open spec fn outranks(a: FrontierEntry, b: FrontierEntry) -> bool {
    a.0 > b.0 || (a.0 == b.0 && a.1 < b.1)
}

pub open spec fn parent(i: int) -> int {
    (i - 1) / 2
}

pub open spec fn heap_ok(v: Seq<FrontierEntry>) -> bool {
    forall|i: int| 0 < i < v.len() ==> !outranks(#[trigger] v[i], v[parent(i)])
}

pub struct Frontier {
    items: Vec<FrontierEntry>,
}

impl Frontier {
    pub closed spec fn entries(&self) -> Multiset<FrontierEntry> {
        self.items@.to_multiset()
    }

    pub closed spec fn wf(&self) -> bool {
        heap_ok(self.items@)
    }

    pub fn new() -> (r: Frontier)
        ensures
            r.wf(),
            r.entries() == Multiset::<FrontierEntry>::empty(),
    {
        broadcast use vstd::seq_lib::group_to_multiset_ensures;
        broadcast use vstd::multiset::group_multiset_axioms;
        let r = Frontier { items: Vec::new() };
        assert(r.items@.len() == 0);
        assert(r.items@.to_multiset() =~= Multiset::<FrontierEntry>::empty());
        r
    }

    pub fn len(&self) -> (r: usize)
        ensures
            r == self.entries().len(),
    {
        broadcast use vstd::seq_lib::group_to_multiset_ensures;
        self.items.len()
    }

    pub fn push(&mut self, x: FrontierEntry)
        requires
            old(self).wf(),
        ensures
            final(self).wf(),
            final(self).entries() == old(self).entries().insert(x),
    {
        let ghost start = self.items@;
        self.items.push(x);
        proof {
            vstd::seq_lib::to_multiset_build(start, x);
        }
        let mut k = self.items.len() - 1;
        while k > 0 && outranks_exec(self.items[k], self.items[(k - 1) / 2])
            invariant
                k < self.items@.len(),
                self.items@.to_multiset() == start.to_multiset().insert(x),
                forall|i: int| 0 < i < self.items@.len() && i != k ==> !outranks(#[trigger] self.items@[i], self.items@[parent(i)]),
                k > 0 ==> forall|c: int| 0 < c < self.items@.len() && parent(c) == k ==> !outranks(#[trigger] self.items@[c], self.items@[parent(k as int)]),
            decreases k,
        {
            let p = (k - 1) / 2;
            let ghost v = self.items@;
            let a = self.items[k];
            let b = self.items[p];
            self.items.set(k, b);
            self.items.set(p, a);
            proof {
                lemma_swap_multiset(v, k as int, p as int);
                let w = self.items@;
                assert forall|i: int| 0 < i < w.len() && i != p implies !outranks(#[trigger] w[i], w[parent(i)]) by {
                    if i == k {
                    } else if parent(i) == k {
                        assert(!outranks(v[i], v[parent(k as int)]));
                    } else if parent(i) == p {
                        assert(!outranks(v[i], v[p as int]));
                    } else if i == p {
                    } else {
                        assert(w[i] == v[i]);
                        if parent(i) != k && parent(i) != p {
                            assert(w[parent(i)] == v[parent(i)]);
                        }
                    }
                }
                if p > 0 {
                    assert forall|c: int| 0 < c < w.len() && parent(c) == p implies !outranks(#[trigger] w[c], w[parent(p as int)]) by {
                        assert(!outranks(v[p as int], v[parent(p as int)]));
                        if c != k {
                            assert(!outranks(v[c], v[p as int]));
                        }
                    }
                }
            }
            k = p;
        }
    }

    /// Removes and returns the entry that comes out first.
    pub fn pop(&mut self) -> (r: Option<FrontierEntry>)
        requires
            old(self).wf(),
        ensures
            final(self).wf(),
            old(self).entries().len() == 0 ==> r is None && final(self).entries() == old(self).entries(),
            old(self).entries().len() > 0 ==> (r matches Some(x) && {
                &&& old(self).entries().contains(x)
                &&& final(self).entries() == old(self).entries().remove(x)
                &&& forall|y: FrontierEntry| old(self).entries().contains(y) ==> !outranks(y, x)
            }),
    {
        broadcast use vstd::seq_lib::group_to_multiset_ensures;
        if self.items.len() == 0 {
            return None;
        }
        let ghost v0 = self.items@;
        proof {
            lemma_root_is_best(v0);
        }
        let top = self.items.swap_remove(0);
        proof {
            let w = self.items@;
            assert(w =~= v0.update(0, v0.last()).drop_last());
            lemma_swap_remove_multiset(v0);
        }
        let n = self.items.len();
        let mut k: usize = 0;
        loop
            invariant
                n == self.items@.len(),
                k < n || n == 0,
                self.items@.to_multiset() == v0.to_multiset().remove(top),
                forall|i: int| 0 < i < n && parent(i) != k ==> !outranks(#[trigger] self.items@[i], self.items@[parent(i)]),
                k > 0 ==> forall|c: int| 0 < c < n && parent(c) == k ==> !outranks(#[trigger] self.items@[c], self.items@[parent(k as int)]),
            ensures
                n == self.items@.len(),
                self.items@.to_multiset() == v0.to_multiset().remove(top),
                heap_ok(self.items@),
            decreases n - k,
        {
            if n < 2 || k > (n - 2) / 2 {
                proof {
                    let w = self.items@;
                    assert forall|i: int| 0 < i < w.len() implies !outranks(#[trigger] w[i], w[parent(i)]) by {
                        if parent(i) == k {
                            assert(i >= 2 * k + 1);
                        }
                    }
                }
                break;
            }
            let left = 2 * k + 1;
            let right = left + 1;
            let m = if right < n && outranks_exec(self.items[right], self.items[left]) { right } else { left };
            if !outranks_exec(self.items[m], self.items[k]) {
                proof {
                    let w = self.items@;
                    assert forall|c: int| 0 < c < n && parent(c) == k implies !outranks(#[trigger] w[c], w[parent(c)]) by {
                        assert(c == left || c == right);
                    }
                    assert forall|i: int| 0 < i < w.len() implies !outranks(#[trigger] w[i], w[parent(i)]) by {
                        if parent(i) == k {
                        }
                    }
                }
                break;
            }
            let ghost v = self.items@;
            let a = self.items[k];
            let b = self.items[m];
            self.items.set(k, b);
            self.items.set(m, a);
            proof {
                lemma_swap_multiset(v, k as int, m as int);
                let w = self.items@;
                assert(parent(left as int) == k && parent(right as int) == k);
                assert forall|i: int| 0 < i < n && parent(i) != m implies !outranks(#[trigger] w[i], w[parent(i)]) by {
                    if parent(i) == k {
                        if i == m {
                        } else {
                            assert(i == left || i == right);
                        }
                    } else if i == k {
                        assert(!outranks(v[m as int], v[parent(k as int)]));
                    } else if i == m {
                    } else {
                        assert(w[i] == v[i]);
                        assert(w[parent(i)] == v[parent(i)]);
                    }
                }
                assert forall|c: int| 0 < c < n && parent(c) == m implies !outranks(#[trigger] w[c], w[parent(m as int)]) by {
                    assert(c != k && c != m);
                    assert(!outranks(v[c], v[m as int]));
                }
            }
            k = m;
        }
        proof {
            assert forall|y: FrontierEntry| v0.to_multiset().contains(y) implies !outranks(y, top) by {
                let j = choose|j: int| 0 <= j < v0.len() && v0[j] == y;
            }
        }
        Some(top)
    }
}

fn outranks_exec(a: FrontierEntry, b: FrontierEntry) -> (r: bool)
    ensures
        r == outranks(a, b),
{
    a.0 > b.0 || (a.0 == b.0 && a.1 < b.1)
}

proof fn lemma_root_is_best(v: Seq<FrontierEntry>)
    requires
        heap_ok(v),
        v.len() > 0,
    ensures
        forall|i: int| 0 <= i < v.len() ==> !outranks(#[trigger] v[i], v[0]),
        forall|y: FrontierEntry| v.to_multiset().contains(y) ==> !outranks(y, v[0]),
{
    assert forall|i: int| 0 <= i < v.len() implies !outranks(#[trigger] v[i], v[0]) by {
        lemma_below_root(v, i);
    }
    assert forall|y: FrontierEntry| v.to_multiset().contains(y) implies !outranks(y, v[0]) by {
        broadcast use vstd::seq_lib::group_to_multiset_ensures;
        let j = choose|j: int| 0 <= j < v.len() && v[j] == y;
        lemma_below_root(v, j);
    }
}

proof fn lemma_below_root(v: Seq<FrontierEntry>, i: int)
    requires
        heap_ok(v),
        0 <= i < v.len(),
    ensures
        !outranks(v[i], v[0]),
    decreases i,
{
    if i > 0 {
        lemma_below_root(v, parent(i));
        assert(!outranks(v[i], v[parent(i)]));
    }
}

proof fn lemma_swap_multiset(v: Seq<FrontierEntry>, i: int, j: int)
    requires
        0 <= i < v.len(),
        0 <= j < v.len(),
    ensures
        v.update(i, v[j]).update(j, v[i]).to_multiset() == v.to_multiset(),
{
    broadcast use vstd::seq_lib::group_to_multiset_ensures;
    broadcast use vstd::multiset::group_multiset_axioms;
    let m = v.to_multiset();
    let u = v.update(i, v[j]);
    vstd::seq_lib::to_multiset_update(v, i, v[j]);
    vstd::seq_lib::to_multiset_update(u, j, v[i]);
    assert(u[j] == v[j]);
    assert(m.count(v[i]) > 0);
    assert(m.count(v[j]) > 0);
    let mu = m.insert(v[j]).remove(v[i]);
    assert(mu.count(v[j]) > 0) by {
        if v[i] == v[j] {
        } else {
        }
    }
    assert(mu.insert(v[i]).remove(v[j]) =~= m);
}

proof fn lemma_swap_remove_multiset(v: Seq<FrontierEntry>)
    requires
        v.len() > 0,
    ensures
        v.update(0, v.last()).drop_last().to_multiset() == v.to_multiset().remove(v[0]),
{
    broadcast use vstd::seq_lib::group_to_multiset_ensures;
    broadcast use vstd::multiset::group_multiset_axioms;
    let m = v.to_multiset();
    let u = v.update(0, v.last());
    vstd::seq_lib::to_multiset_update(v, 0, v.last());
    assert(u.drop_last() =~= u.remove(u.len() - 1));
    vstd::seq_lib::to_multiset_remove(u, u.len() - 1);
    assert(u[u.len() - 1] == v.last());
    assert(m.count(v[0]) > 0);
    assert(m.count(v.last()) > 0);
    assert(m.insert(v.last()).remove(v[0]).remove(v.last()) =~= m.remove(v[0]));
}

} // verus!
