//! Stable sorting by a key, for the lists the screens show in a fixed order.

use vstd::multiset::Multiset;
use vstd::prelude::*;

verus! {

broadcast use vstd::seq_lib::group_to_multiset_ensures;

/// A type whose values are listed in the order of a key: `key_le` is a total
/// preorder on them, and `key_le_exec` decides it.
pub trait SortKey: Sized {
    spec fn key_le(self, other: Self) -> bool;

    proof fn lemma_key_total(a: Self, b: Self)
        ensures
            Self::key_le(a, b) || Self::key_le(b, a),
    ;

    proof fn lemma_key_transitive(a: Self, b: Self, c: Self)
        requires
            Self::key_le(a, b),
            Self::key_le(b, c),
        ensures
            Self::key_le(a, c),
    ;

    fn key_le_exec(&self, other: &Self) -> (r: bool)
        ensures
            r == Self::key_le(*self, *other),
    ;
}

/// Every element's key is at most that of every element after it.
pub open spec fn sorted_by_key<T: SortKey>(s: Seq<T>) -> bool {
    forall|i: int, j: int| 0 <= i < j < s.len() ==> #[trigger] T::key_le(s[i], s[j])
}

proof fn lemma_insert_keeps_sorted<T: SortKey>(s: Seq<T>, p: int, x: T)
    requires
        0 <= p <= s.len(),
        sorted_by_key(s),
        forall|k: int| 0 <= k < p ==> T::key_le(#[trigger] s[k], x),
        p < s.len() ==> T::key_le(x, s[p]),
    ensures
        sorted_by_key(s.insert(p, x)),
{
    let t = s.insert(p, x);
    assert forall|i: int, j: int| 0 <= i < j < t.len() implies #[trigger] T::key_le(t[i], t[j]) by {
        if j < p {
            assert(t[i] == s[i] && t[j] == s[j]);
        } else if j == p {
            assert(t[i] == s[i] && t[j] == x);
        } else if i < p {
            assert(t[i] == s[i] && t[j] == s[j - 1]);
        } else if i == p {
            assert(t[i] == x && t[j] == s[j - 1]);
            if j - 1 > p {
                assert(T::key_le(s[p], s[j - 1]));
                T::lemma_key_transitive(x, s[p], s[j - 1]);
            }
        } else {
            assert(t[i] == s[i - 1] && t[j] == s[j - 1]);
        }
    }
}

proof fn lemma_insert_keeps_stable<T: SortKey>(
    v: Seq<T>,
    out: Seq<T>,
    from: Seq<int>,
    p: int,
    x: T,
    m: int,
)
    requires
        stable_from(v, out, from),
        0 <= p <= out.len(),
        0 <= m < v.len(),
        v[m] == x,
        forall|k: int| 0 <= k < from.len() ==> m < #[trigger] from[k],
        forall|k: int| 0 <= k < p ==> !T::key_le(x, #[trigger] out[k]),
    ensures
        stable_from(v, out.insert(p, x), from.insert(p, m)),
        forall|k: int| 0 <= k < from.insert(p, m).len() ==> m <= #[trigger] from.insert(p, m)[k],
{
    let r = out.insert(p, x);
    let f = from.insert(p, m);
    assert forall|k: int| 0 <= k < r.len() implies 0 <= #[trigger] f[k] < v.len() && r[k] == v[f[k]] by {
        if k < p {
            assert(f[k] == from[k] && r[k] == out[k]);
        } else if k > p {
            assert(f[k] == from[k - 1] && r[k] == out[k - 1]);
        }
    }
    assert forall|i: int, j: int| 0 <= i < j < r.len() implies #[trigger] f[i] != #[trigger] f[j] by {
        if i != p && j != p {
            let i0 = if i < p { i } else { i - 1 };
            let j0 = if j < p { j } else { j - 1 };
            assert(f[i] == from[i0] && f[j] == from[j0]);
        } else if i == p {
            assert(f[j] == from[j - 1]);
        } else {
            assert(f[i] == from[i]);
        }
    }
    assert forall|i: int, j: int|
        #![trigger f[i], f[j]]
        0 <= i < j < r.len() && same_key(r[i], r[j]) implies f[i] < f[j] by {
        if i != p && j != p {
            let i0 = if i < p { i } else { i - 1 };
            let j0 = if j < p { j } else { j - 1 };
            assert(f[i] == from[i0] && f[j] == from[j0]);
            assert(r[i] == out[i0] && r[j] == out[j0]);
            assert(from[i0] < from[j0]);
        } else if i == p {
            assert(f[j] == from[j - 1]);
        } else {
            assert(r[j] == x && r[i] == out[i]);
            assert(!T::key_le(x, out[i]));
        }
    }
    assert forall|k: int| 0 <= k < f.len() implies m <= #[trigger] f[k] by {
        if k < p {
            assert(f[k] == from[k]);
        } else if k > p {
            assert(f[k] == from[k - 1]);
        }
    }
}

/// `a` and `b` have the same key.
pub open spec fn same_key<T: SortKey>(a: T, b: T) -> bool {
    T::key_le(a, b) && T::key_le(b, a)
}

/// `r` takes its elements from `v` at the distinct positions `from`, and
/// two elements with the same key come in `r` in the order they had in `v`.
pub open spec fn stable_from<T: SortKey>(v: Seq<T>, r: Seq<T>, from: Seq<int>) -> bool {
    &&& from.len() == r.len()
    &&& forall|k: int| 0 <= k < r.len() ==> 0 <= #[trigger] from[k] < v.len() && r[k] == v[from[k]]
    &&& forall|i: int, j: int| 0 <= i < j < r.len() ==> #[trigger] from[i] != #[trigger] from[j]
    &&& forall|i: int, j: int|
        #![trigger from[i], from[j]]
        0 <= i < j < r.len() && same_key(r[i], r[j]) ==> from[i] < from[j]
}

/// The elements of `v`, ordered by key, those with the same key in the order
/// they came (what a stable sort on the key gives).
pub fn sort_by_key<T: SortKey>(v: Vec<T>) -> (r: Vec<T>)
    ensures
        sorted_by_key(r@),
        r@.to_multiset() == v@.to_multiset(),
        exists|from: Seq<int>| stable_from(v@, r@, from),
{
    let ghost input = v@;
    let mut rest = v;
    let mut out: Vec<T> = Vec::new();
    let ghost mut from: Seq<int> = Seq::empty();
    assert(out@.to_multiset() =~= Multiset::empty());
    assert(input.subrange(0, input.len() as int) =~= input);
    while rest.len() > 0
        invariant
            sorted_by_key(out@),
            out@.to_multiset().add(rest@.to_multiset()) == input.to_multiset(),
            rest@ == input.subrange(0, rest@.len() as int),
            rest@.len() <= input.len(),
            stable_from(input, out@, from),
            forall|k: int| 0 <= k < from.len() ==> rest@.len() <= #[trigger] from[k],
        decreases rest@.len(),
    {
        let ghost before = rest@;
        let x = rest.pop().unwrap();
        let ghost m = rest@.len() as int;
        proof {
            assert(before =~= rest@.push(x));
            assert(rest@ =~= input.subrange(0, m));
            assert(x == input[m]);
            vstd::seq_lib::to_multiset_build(rest@, x);
        }
        // Inserted before the first element whose key is not below its own:
        // everything already placed came after it in `v`, so equal keys keep
        // their order, as `sort_by` would.
        let mut p: usize = 0;
        while p < out.len() && !x.key_le_exec(&out[p])
            invariant
                p <= out@.len(),
                forall|k: int| 0 <= k < p ==> !T::key_le(x, #[trigger] out@[k]),
            decreases out@.len() - p,
        {
            p = p + 1;
        }
        proof {
            assert forall|k: int| 0 <= k < p implies T::key_le(#[trigger] out@[k], x) by {
                T::lemma_key_total(out@[k], x);
            }
            lemma_insert_keeps_sorted(out@, p as int, x);
            vstd::seq_lib::to_multiset_insert(out@, p as int, x);
        }
        let ghost old_out = out@;
        let ghost old_from = from;
        out.insert(p, x);
        proof {
            assert(out@.to_multiset() == old_out.to_multiset().insert(x));
            assert(out@.to_multiset().add(rest@.to_multiset()) =~= old_out.to_multiset().add(
                before.to_multiset(),
            ));
            from = old_from.insert(p as int, m);
            lemma_insert_keeps_stable(input, old_out, old_from, p as int, x, m);
        }
    }
    assert(rest@.to_multiset() =~= Multiset::empty());
    assert(out@.to_multiset().add(Multiset::empty()) =~= out@.to_multiset());
    assert(stable_from(input, out@, from));
    out
}

/// Mapping every element keeps two sequences with the same elements having the
/// same elements.
pub proof fn lemma_map_keeps_permutation<A, B>(x: Seq<A>, y: Seq<A>, f: spec_fn(A) -> B)
    requires
        x.to_multiset() == y.to_multiset(),
    ensures
        x.map_values(f).to_multiset() == y.map_values(f).to_multiset(),
    decreases x.len(),
{
    broadcast use vstd::multiset::group_multiset_axioms;

    if x.len() == 0 {
        assert(y.to_multiset().len() == 0);
        assert(y.len() == 0);
        assert(x.map_values(f) =~= y.map_values(f));
    } else {
        let a = x.last();
        let rest = x.drop_last();
        assert(x =~= rest.push(a));
        vstd::seq_lib::to_multiset_build(rest, a);
        assert(y.to_multiset().contains(a));
        assert(y.contains(a));
        let i = choose|i: int| 0 <= i < y.len() && y[i] == a;
        vstd::seq_lib::to_multiset_remove(y, i);
        assert(rest.to_multiset() =~= y.remove(i).to_multiset());
        lemma_map_keeps_permutation(rest, y.remove(i), f);
        let my = y.map_values(f);
        assert(my.remove(i) =~= y.remove(i).map_values(f));
        vstd::seq_lib::to_multiset_remove(my, i);
        assert(my.to_multiset().contains(f(a))) by {
            assert(my[i] == f(a));
        }
        assert(x.map_values(f) =~= rest.map_values(f).push(f(a)));
        vstd::seq_lib::to_multiset_build(rest.map_values(f), f(a));
        assert(x.map_values(f).to_multiset() =~= my.to_multiset());
    }
}

} // verus!
