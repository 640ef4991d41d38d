//! Sorting that keeps equals in their order.
use vstd::prelude::*;
use vstd::relations::{antisymmetric, reflexive, sorted_by, strongly_connected, total_ordering, transitive};

use crate::chars::chars_of;
use crate::strs::{texts, texts_push};

verus! {

/// A way to say that one thing stands before another which leaves no doubt but
/// between equals.
pub open spec fn weak_order(lt: spec_fn(int, int) -> bool) -> bool {
    &&& forall|x: int, y: int| #[trigger] lt(x, y) ==> !lt(y, x)
    &&& forall|x: int, y: int, z: int|
        #[trigger] lt(x, z) ==> #[trigger] lt(x, y) || lt(y, z)
}

/// The order of places that `lt` gives, equals in the order of their places.
pub open spec fn stable(lt: spec_fn(int, int) -> bool) -> spec_fn(int, int) -> bool {
    |x: int, y: int| x == y || lt(x, y) || (!lt(y, x) && x < y)
}

/// The places up to `n`.
pub open spec fn places(n: nat) -> Seq<int> {
    Seq::new(n, |i: int| i)
}

/// The places up to `n` in the order that `lt` gives.
pub open spec fn in_order(n: nat, lt: spec_fn(int, int) -> bool) -> Seq<int> {
    places(n).sort_by(stable(lt))
}

pub open spec fn as_places(v: Seq<usize>) -> Seq<int> {
    v.map_values(|u: usize| u as int)
}

proof fn stable_is_total(lt: spec_fn(int, int) -> bool)
    requires
        weak_order(lt),
    ensures
        total_ordering(stable(lt)),
{
    let r = stable(lt);
    assert forall|x: int, y: int, z: int| #[trigger] r(x, y) && #[trigger] r(y, z) implies r(
        x,
        z,
    ) by {
        if x != y && y != z && x != z {
            // Whatever stands before `z`, or after `x`, is compared with `y`.
            assert(lt(x, y) ==> lt(x, z) || lt(z, y));
            assert(lt(y, z) ==> lt(y, x) || lt(x, z));
            assert(lt(z, x) ==> lt(z, y) || lt(y, x));
            assert(lt(x, z) ==> lt(x, y) || lt(y, z));
        }
    }
    assert(reflexive(r));
    assert(antisymmetric(r));
    assert(transitive(r));
    assert(strongly_connected(r));
}

/// `a` stands before `b`, by the first character in which they differ from `i`
/// on; what ends first stands first.
pub open spec fn less_from(a: Seq<char>, b: Seq<char>, i: int) -> bool
    decreases a.len() - i,
{
    if i < 0 || i >= b.len() {
        false
    } else if i >= a.len() {
        true
    } else if a[i] != b[i] {
        a[i] < b[i]
    } else {
        less_from(a, b, i + 1)
    }
}

/// The order of texts.
pub open spec fn text_less(a: Seq<char>, b: Seq<char>) -> bool {
    less_from(a, b, 0)
}

proof fn less_asymmetric(a: Seq<char>, b: Seq<char>, i: int)
    ensures
        less_from(a, b, i) ==> !less_from(b, a, i),
    decreases a.len() - i,
{
    if 0 <= i < a.len() && i < b.len() && a[i] == b[i] {
        less_asymmetric(a, b, i + 1);
    }
}

proof fn less_between(a: Seq<char>, b: Seq<char>, c: Seq<char>, i: int)
    ensures
        less_from(a, c, i) ==> less_from(a, b, i) || less_from(b, c, i),
    decreases a.len() - i,
{
    if 0 <= i < a.len() && i < b.len() && i < c.len() && a[i] == b[i] && b[i] == c[i] {
        less_between(a, b, c, i + 1);
    }
}

/// Of two texts not both stand before the other, and a third stands after the
/// first or before the second.
pub proof fn texts_compare(a: Seq<char>, c: Seq<char>, b: Seq<char>)
    ensures
        text_less(a, c) ==> !text_less(c, a),
        text_less(a, c) ==> text_less(a, b) || text_less(b, c),
{
    less_asymmetric(a, c, 0);
    less_between(a, b, c, 0);
}

/// The order of places that the texts there give.
pub open spec fn by_text(v: Seq<Seq<char>>) -> spec_fn(int, int) -> bool {
    |i: int, j: int| text_less(v[i], v[j])
}

/// The order of texts leaves no doubt.
pub proof fn text_order(v: Seq<Seq<char>>)
    ensures
        weak_order(by_text(v)),
{
    let lt = by_text(v);
    assert forall|x: int, y: int| #[trigger] lt(x, y) implies !lt(y, x) by {
        less_asymmetric(v[x], v[y], 0);
    }
    assert forall|x: int, y: int, z: int| #[trigger] lt(x, z) implies #[trigger] lt(x, y) || lt(
        y,
        z,
    ) by {
        less_between(v[x], v[y], v[z], 0);
    }
}

/// Does `a` stand before `b`?
pub fn text_before(a: &str, b: &str) -> (r: bool)
    ensures
        r == text_less(a@, b@),
{
    let x = chars_of(a);
    let y = chars_of(b);
    let mut i: usize = 0;
    while i < y.len()
        invariant
            x@ == a@,
            y@ == b@,
            i <= x@.len(),
            i <= y@.len(),
            text_less(a@, b@) == less_from(a@, b@, i as int),
        decreases y@.len() - i,
    {
        if i >= x.len() {
            return true;
        }
        if x[i] != y[i] {
            return x[i] < y[i];
        }
        i += 1;
    }
    false
}

/// The order is the only one that puts all places up to `n` one after the other.
proof fn order_unique(v: Seq<int>, n: nat, lt: spec_fn(int, int) -> bool)
    requires
        weak_order(lt),
        sorted_by(v, stable(lt)),
        v.to_multiset() == places(n).to_multiset(),
    ensures
        v == in_order(n, lt),
{
    stable_is_total(lt);
    places(n).lemma_sort_by_ensures(stable(lt));
    vstd::seq_lib::lemma_sorted_unique(v, in_order(n, lt), stable(lt));
}

/// What the order is: each place up to `n` once, and no place before one that
/// `lt` puts first.
pub proof fn order_shape(n: nat, lt: spec_fn(int, int) -> bool)
    requires
        weak_order(lt),
    ensures
        sorted_by(in_order(n, lt), stable(lt)),
        in_order(n, lt).len() == n,
        in_order(n, lt).no_duplicates(),
        forall|i: int| 0 <= i < n <==> #[trigger] in_order(n, lt).contains(i),
        forall|k: int| 0 <= k < n ==> 0 <= #[trigger] in_order(n, lt)[k] < n,
        in_order(n, lt).to_multiset() == places(n).to_multiset(),
{
    broadcast use vstd::seq_lib::group_to_multiset_ensures;

    let o = in_order(n, lt);
    let p = places(n);
    stable_is_total(lt);
    p.lemma_sort_by_ensures(stable(lt));
    assert(o.len() == o.to_multiset().len());
    assert(p.len() == p.to_multiset().len());
    assert forall|i: int| 0 <= i < n <==> #[trigger] o.contains(i) by {
        assert(p.contains(i) <==> o.contains(i)) by {
            assert(p.to_multiset().count(i) == o.to_multiset().count(i));
        }
        if 0 <= i < n {
            assert(p[i] == i);
        }
    }
    assert forall|k: int| 0 <= k < n implies 0 <= #[trigger] o[k] < n by {
        assert(o.contains(o[k]));
    }
    assert(o.no_duplicates()) by {
        p.lemma_multiset_has_no_duplicates();
        assert(p.no_duplicates());
        o.lemma_multiset_has_no_duplicates_conv();
    }
}

/// Places of which none stands after a later one stay where they are.
pub proof fn order_kept(n: nat, lt: spec_fn(int, int) -> bool)
    requires
        weak_order(lt),
        forall|a: int, b: int| 0 <= a < b < n ==> !#[trigger] lt(b, a),
    ensures
        in_order(n, lt) == places(n),
{
    let p = places(n);
    let leq = stable(lt);
    assert forall|a: int, b: int| 0 <= a < b < p.len() implies #[trigger] leq(p[a], p[b]) by {
        assert(!lt(b, a));
    }
    order_unique(p, n, lt);
}

/// What is taken in two orders of the same places is the same.
pub proof fn same_taken<A>(p: Seq<int>, q: Seq<int>, v: Seq<A>)
    requires
        p.to_multiset() == q.to_multiset(),
    ensures
        p.map_values(|i: int| v[i]).to_multiset() == q.map_values(|i: int| v[i]).to_multiset(),
    decreases p.len(),
{
    broadcast use vstd::seq_lib::group_to_multiset_ensures;

    let f = |i: int| v[i];
    assert(p.len() == p.to_multiset().len() == q.to_multiset().len() == q.len());
    if p.len() == 0 {
        assert(p.map_values(f) =~= q.map_values(f));
    } else {
        let x = p.last();
        let last = p.len() - 1;
        assert(p.contains(x)) by {
            assert(p[last] == x);
        }
        assert(q.to_multiset().count(x) > 0);
        assert(q.contains(x));
        let j = q.index_of(x);
        vstd::seq_lib::to_multiset_remove(p, last);
        vstd::seq_lib::to_multiset_remove(q, j);
        same_taken(p.remove(last), q.remove(j), v);
        let a = p.map_values(f);
        let b = q.map_values(f);
        assert(a.remove(last) =~= p.remove(last).map_values(f));
        assert(b.remove(j) =~= q.remove(j).map_values(f));
        vstd::seq_lib::to_multiset_remove(a, last);
        vstd::seq_lib::to_multiset_remove(b, j);
        assert(a[last] == b[j]);
        assert(a.to_multiset() =~= a.remove(last).to_multiset().insert(a[last])) by {
            vstd::seq_lib::to_multiset_contains(a, a[last]);
        }
        assert(b.to_multiset() =~= b.remove(j).to_multiset().insert(b[j])) by {
            vstd::seq_lib::to_multiset_contains(b, b[j]);
        }
    }
}

/// The places up to `n`, sorted by `f`, equals in the order of their places.
pub(crate) fn order<F: Fn(usize, usize) -> bool>(
    n: usize,
    f: F,
    Ghost(lt): Ghost<spec_fn(int, int) -> bool>,
) -> (r: Vec<usize>)
    requires
        weak_order(lt),
        forall|i: usize, j: usize| i < n && j < n ==> call_requires(f, (i, j)),
        forall|i: usize, j: usize, b: bool|
            i < n && j < n && call_ensures(f, (i, j), b) ==> b == lt(i as int, j as int),
    ensures
        as_places(r@) == in_order(n as nat, lt),
        forall|k: int| 0 <= k < r@.len() ==> #[trigger] r@[k] < n,
        r@.len() == n,
{
    let mut p: Vec<usize> = Vec::new();
    let ghost leq = stable(lt);
    let mut k: usize = 0;
    proof {
        stable_is_total(lt);
        assert(as_places(p@) =~= places(0));
    }
    while k < n
        invariant
            k <= n,
            weak_order(lt),
            leq == stable(lt),
            total_ordering(leq),
            forall|i: usize, j: usize| i < n && j < n ==> call_requires(f, (i, j)),
            forall|i: usize, j: usize, b: bool|
                i < n && j < n && call_ensures(f, (i, j), b) ==> b == lt(i as int, j as int),
            p@.len() == k,
            forall|j: int| 0 <= j < p@.len() ==> #[trigger] p@[j] < k,
            sorted_by(as_places(p@), leq),
            as_places(p@).to_multiset() == places(k as nat).to_multiset(),
        decreases n - k,
    {
        let mut pos: usize = p.len();
        while pos > 0 && f(k, p[pos - 1])
            invariant
                k < n,
                pos <= p@.len(),
                forall|i: usize, j: usize| i < n && j < n ==> call_requires(f, (i, j)),
                forall|i: usize, j: usize, b: bool|
                    i < n && j < n && call_ensures(f, (i, j), b) ==> b == lt(i as int, j as int),
                forall|j: int| 0 <= j < p@.len() ==> #[trigger] p@[j] < k,
                forall|j: int| pos <= j < p@.len() ==> lt(k as int, #[trigger] p@[j] as int),
            ensures
                pos <= p@.len(),
                forall|j: int| pos <= j < p@.len() ==> lt(k as int, #[trigger] p@[j] as int),
                pos > 0 ==> !lt(k as int, p@[pos - 1] as int),
            decreases pos,
        {
            pos -= 1;
        }
        let ghost before = as_places(p@);
        p.insert(pos, k);
        proof {
            let now = as_places(p@);
            assert(now =~= before.insert(pos as int, k as int));
            assert(sorted_by(now, leq)) by {
                assert forall|a: int, b: int| 0 <= a < b < now.len() implies #[trigger] leq(
                    now[a],
                    now[b],
                ) by {
                    let x = if a < pos {
                        a
                    } else {
                        a - 1
                    };
                    let y = if b < pos {
                        b
                    } else {
                        b - 1
                    };
                    if a != pos && b != pos {
                        assert(leq(before[x], before[y]));
                    } else if a == pos {
                        assert(now[b] == before[y]);
                        assert(lt(k as int, before[y]));
                    } else {
                        assert(now[a] == before[a]);
                        assert(leq(before[pos - 1], k as int));
                        if a < pos - 1 {
                            assert(leq(before[a], before[pos - 1]));
                        }
                    }
                }
            }
            broadcast use vstd::seq_lib::group_to_multiset_ensures;

            vstd::seq_lib::to_multiset_insert(before, pos as int, k as int);
            assert(places((k + 1) as nat) =~= places(k as nat).push(k as int));
        }
        k += 1;
    }
    proof {
        order_unique(as_places(p@), n as nat, lt);
    }
    p
}

/// The texts in their order.
pub open spec fn text_sorted(v: Seq<Seq<char>>) -> Seq<Seq<char>> {
    in_order(v.len(), by_text(v)).map_values(|i: int| v[i])
}

pub fn sort_texts(list: &[String]) -> (r: Vec<String>)
    ensures
        texts(r@) == text_sorted(texts(list@)),
{
    broadcast use texts_push;

    let ghost v = texts(list@);
    let ghost lt = by_text(v);
    let n: usize = list.len();
    proof {
        text_order(v);
    }
    let before = |a: usize, b: usize| -> (r: bool)
        requires
            a < n,
            b < n,
        ensures
            r == lt(a as int, b as int),
        {
            text_before(list[a].as_str(), list[b].as_str())
        };
    let p = order(n, before, Ghost(lt));
    let mut out: Vec<String> = Vec::new();
    let mut k: usize = 0;
    let ghost all = text_sorted(v);
    assert(texts(out@) =~= all.take(0));
    while k < p.len()
        invariant
            k <= p@.len(),
            n == list@.len(),
            v == texts(list@),
            p@.len() == n,
            all == in_order(v.len(), lt).map_values(|i: int| v[i]),
            as_places(p@) == in_order(v.len(), lt),
            forall|j: int| 0 <= j < p@.len() ==> #[trigger] p@[j] < n,
            texts(out@) == all.take(k as int),
        decreases p@.len() - k,
    {
        broadcast use texts_push;

        assert(as_places(p@)[k as int] == p@[k as int]);
        assert(p@[k as int] < n);
        assert(all[k as int] == list@[p@[k as int] as int]@);
        out.push(list[p[k]].clone());
        assert(all.take(k + 1) =~= all.take(k as int).push(all[k as int]));
        k += 1;
    }
    assert(as_places(p@).len() == all.len());
    assert(all.take(k as int) =~= all);
    out
}

} // verus!
