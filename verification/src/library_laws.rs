//! What the list of games keeps.
use vstd::prelude::*;

use crate::chars::is_space;
use crate::library::{
    is_again, is_listed, list_of, newer, newest_first, newer_is_order, once_each, paths_in, scanned,
    stands_for, GameView, Store,
};
use crate::order::{in_order, order_kept, order_shape, places, same_taken, stable, text_less};
use crate::str_laws::{
    filter_all, lines_clean, pieces_of_join, tight, trim_shape, trim_tight, trim_within,
};
use crate::strs::{lines, pieces, same_fold, strip_cr, trim};

verus! {

/// `a` may stand before `b`: it is not older, and of the same time its title
/// does not stand after.
pub open spec fn may_precede(a: GameView, b: GameView) -> bool {
    a.installed > b.installed || (a.installed == b.installed && !text_less(b.title, a.title))
}

/// The list has an entry for the game's folder that may stand before it.
pub open spec fn is_led(v: Seq<GameView>, g: GameView) -> bool {
    exists|i: int|
        0 <= i < v.len() && same_fold((#[trigger] v[i]).dir, g.dir) && may_precede(v[i], g)
}

/// The game is among those of the list.
pub open spec fn is_among(v: Seq<GameView>, g: GameView) -> bool {
    exists|i: int| 0 <= i < v.len() && #[trigger] v[i] == g
}

proof fn newest_first_shape(v: Seq<GameView>)
    ensures
        newest_first(v).len() == v.len(),
        forall|i: int, j: int|
            0 <= i < j < v.len() ==> may_precede(
                #[trigger] newest_first(v)[i],
                #[trigger] newest_first(v)[j],
            ),
        forall|i: int| 0 <= i < v.len() ==> is_among(v, #[trigger] newest_first(v)[i]),
        forall|i: int| 0 <= i < v.len() ==> is_among(newest_first(v), #[trigger] v[i]),
        newest_first(v).to_multiset() == v.to_multiset(),
{
    let lt = newer(v);
    newer_is_order(v);
    order_shape(v.len(), lt);
    let o = in_order(v.len(), lt);
    let n = newest_first(v);
    assert forall|i: int, j: int| 0 <= i < j < v.len() implies may_precede(
        #[trigger] n[i],
        #[trigger] n[j],
    ) by {
        assert(stable(lt)(o[i], o[j]));
        assert(n[i] == v[o[i]] && n[j] == v[o[j]]);
        crate::order::texts_compare(v[o[i]].title, v[o[j]].title, v[o[i]].title);
    }
    assert forall|i: int| 0 <= i < v.len() implies is_among(v, #[trigger] n[i]) by {
        assert(n[i] == v[o[i]]);
    }
    assert forall|i: int| 0 <= i < v.len() implies is_among(n, #[trigger] v[i]) by {
        assert(o.contains(i));
        let k = o.index_of(i);
        assert(n[k] == v[i]);
    }
    same_taken(o, places(v.len()), v);
    assert(places(v.len()).map_values(|i: int| v[i]) =~= v);
}

proof fn once_each_shape(v: Seq<GameView>)
    requires
        forall|i: int, j: int|
            0 <= i < j < v.len() ==> may_precede(#[trigger] v[i], #[trigger] v[j]),
    ensures
        forall|i: int, j: int|
            0 <= i < j < once_each(v).len() ==> may_precede(
                #[trigger] once_each(v)[i],
                #[trigger] once_each(v)[j],
            ) && !same_fold(once_each(v)[i].dir, once_each(v)[j].dir),
        forall|i: int| 0 <= i < once_each(v).len() ==> is_among(v, #[trigger] once_each(v)[i]),
        forall|i: int| 0 <= i < v.len() ==> is_led(once_each(v), #[trigger] v[i]),
        once_each(v).to_multiset().subset_of(v.to_multiset()),
    decreases v.len(),
{
    broadcast use vstd::seq_lib::group_to_multiset_ensures;

    if v.len() > 0 {
        let u = v.drop_last();
        let g = v.last();
        let last = v.len() - 1;
        assert forall|i: int, j: int| 0 <= i < j < u.len() implies may_precede(
            #[trigger] u[i],
            #[trigger] u[j],
        ) by {
            assert(may_precede(v[i], v[j]));
        }
        once_each_shape(u);
        let k = once_each(u);
        let w = once_each(v);
        assert forall|i: int| 0 <= i < w.len() implies is_among(v, #[trigger] w[i]) by {
            if i < k.len() {
                assert(w[i] == k[i]);
                assert(is_among(u, k[i]));
                let x = choose|x: int| 0 <= x < u.len() && #[trigger] u[x] == k[i];
                assert(v[x] == k[i]);
            } else {
                assert(v[last] == w[i]);
            }
        }
        assert forall|i: int, j: int| 0 <= i < j < w.len() implies may_precede(
            #[trigger] w[i],
            #[trigger] w[j],
        ) && !same_fold(w[i].dir, w[j].dir) by {
            assert(w[i] == k[i]);
            if j < k.len() {
                assert(w[j] == k[j]);
                assert(may_precede(k[i], k[j]));
            } else {
                assert(is_among(u, k[i]));
                let x = choose|x: int| 0 <= x < u.len() && #[trigger] u[x] == k[i];
                assert(may_precede(v[x], v[last]));
                assert(!is_again(k, g));
            }
        }
        assert forall|i: int| 0 <= i < v.len() implies is_led(w, #[trigger] v[i]) by {
            if i < u.len() {
                assert(v[i] == u[i]);
                assert(is_led(k, u[i]));
                let x = choose|x: int|
                    0 <= x < k.len() && same_fold((#[trigger] k[x]).dir, u[i].dir) && may_precede(
                        k[x],
                        u[i],
                    );
                assert(w[x] == k[x]);
            } else if w.len() > k.len() {
                crate::order::texts_compare(g.title, g.title, g.title);
                assert(w[k.len() as int] == g);
            } else {
                let x = choose|x: int|
                    0 <= x < k.len() && same_fold((#[trigger] k[x]).dir, g.dir);
                assert(is_among(u, k[x]));
                let y = choose|y: int| 0 <= y < u.len() && #[trigger] u[y] == k[x];
                assert(may_precede(v[y], v[last]));
                assert(w[x] == k[x]);
            }
        }
        assert(v =~= u.push(g));
        vstd::seq_lib::to_multiset_build(u, g);
        vstd::seq_lib::to_multiset_build(k, g);
    }
}

/// A list that stands newest first stays as it is.
proof fn newest_first_kept(v: Seq<GameView>)
    requires
        forall|i: int, j: int|
            0 <= i < j < v.len() ==> may_precede(#[trigger] v[i], #[trigger] v[j]),
    ensures
        newest_first(v) == v,
{
    let lt = newer(v);
    newer_is_order(v);
    assert forall|a: int, b: int| 0 <= a < b < v.len() implies !#[trigger] lt(b, a) by {
        assert(may_precede(v[a], v[b]));
    }
    order_kept(v.len(), lt);
    assert(newest_first(v) =~= v);
}

/// A list that names each folder once stays as it is.
proof fn once_each_kept(v: Seq<GameView>)
    requires
        forall|i: int, j: int|
            0 <= i < j < v.len() ==> !same_fold((#[trigger] v[i]).dir, (#[trigger] v[j]).dir),
    ensures
        once_each(v) == v,
    decreases v.len(),
{
    if v.len() > 0 {
        let u = v.drop_last();
        let last = v.len() - 1;
        assert forall|i: int, j: int| 0 <= i < j < u.len() implies !same_fold(
            (#[trigger] u[i]).dir,
            (#[trigger] u[j]).dir,
        ) by {
            assert(u[i] == v[i] && u[j] == v[j]);
        }
        once_each_kept(u);
        assert(!is_again(u, v.last())) by {
            assert forall|i: int| 0 <= i < u.len() implies !same_fold(
                (#[trigger] u[i]).dir,
                v.last().dir,
            ) by {
                assert(u[i] == v[i] && v[last] == v.last());
            }
        }
        assert(u.push(v.last()) =~= v);
    } else {
        assert(once_each(v) =~= v);
    }
}

/// The list stands newest first, names each folder once, and multiplies no
/// entry; it leaves no folder out, and the entry of each is as new as any that
/// there was for it. Sorting it again changes nothing.
pub proof fn law_newest_once(v: Seq<GameView>)
    ensures
        ({
            let r = once_each(newest_first(v));
            &&& forall|i: int, j: int|
                0 <= i < j < r.len() ==> may_precede(#[trigger] r[i], #[trigger] r[j])
                    && !same_fold(r[i].dir, r[j].dir)
            &&& r.to_multiset().subset_of(v.to_multiset())
            &&& forall|i: int| 0 <= i < r.len() ==> is_among(v, #[trigger] r[i])
            &&& forall|i: int| 0 <= i < v.len() ==> is_led(r, #[trigger] v[i])
            &&& once_each(newest_first(r)) == r
        }),
{
    let n = newest_first(v);
    newest_first_shape(v);
    once_each_shape(n);
    let r = once_each(n);
    assert forall|i: int| 0 <= i < r.len() implies is_among(v, #[trigger] r[i]) by {
        assert(is_among(n, r[i]));
        let x = choose|x: int| 0 <= x < n.len() && #[trigger] n[x] == r[i];
        assert(is_among(v, n[x]));
    }
    assert forall|i: int| 0 <= i < v.len() implies is_led(r, #[trigger] v[i]) by {
        assert(is_among(n, v[i]));
        let x = choose|x: int| 0 <= x < n.len() && #[trigger] n[x] == v[i];
        assert(is_led(r, n[x]));
    }
    newest_first_kept(r);
    once_each_kept(r);
}

proof fn once_within(v: Seq<GameView>)
    ensures
        forall|i: int| 0 <= i < once_each(v).len() ==> is_among(v, #[trigger] once_each(v)[i]),
    decreases v.len(),
{
    if v.len() > 0 {
        let u = v.drop_last();
        once_within(u);
        let k = once_each(u);
        let w = once_each(v);
        assert forall|i: int| 0 <= i < w.len() implies is_among(v, #[trigger] w[i]) by {
            if i < k.len() {
                assert(w[i] == k[i]);
                assert(is_among(u, k[i]));
                let x = choose|x: int| 0 <= x < u.len() && #[trigger] u[x] == k[i];
                assert(v[x] == k[i]);
            } else {
                assert(v[v.len() - 1] == w[i]);
            }
        }
    }
}

/// The first game of a folder is kept.
proof fn first_kept(v: Seq<GameView>, k: int)
    requires
        0 <= k < v.len(),
        forall|j: int| 0 <= j < k ==> !same_fold((#[trigger] v[j]).dir, v[k].dir),
    ensures
        is_among(once_each(v), v[k]),
    decreases v.len(),
{
    let u = v.drop_last();
    let kept = once_each(u);
    let w = once_each(v);
    if k < u.len() {
        assert(u[k] == v[k]);
        assert forall|j: int| 0 <= j < k implies !same_fold((#[trigger] u[j]).dir, u[k].dir) by {
            assert(u[j] == v[j]);
        }
        first_kept(u, k);
        let x = choose|x: int| 0 <= x < kept.len() && #[trigger] kept[x] == v[k];
        assert(w[x] == kept[x]);
    } else {
        once_within(u);
        if is_again(kept, v[k]) {
            let x = choose|x: int|
                0 <= x < kept.len() && same_fold((#[trigger] kept[x]).dir, v[k].dir);
            assert(is_among(u, kept[x]));
            let y = choose|y: int| 0 <= y < u.len() && #[trigger] u[y] == kept[x];
            assert(v[y] == u[y]);
        }
        assert(w[kept.len() as int] == v[k]);
    }
}

/// Of the entries for one folder, the newest stays; of the same time, the one
/// whose title comes first; of the same title, the one that was listed first.
pub proof fn law_which_stays(v: Seq<GameView>, x: int)
    requires
        0 <= x < v.len(),
        forall|y: int|
            0 <= y < v.len() && same_fold((#[trigger] v[y]).dir, v[x].dir) ==> stable(newer(v))(
                x,
                y,
            ),
    ensures
        is_among(once_each(newest_first(v)), v[x]),
{
    let lt = newer(v);
    newer_is_order(v);
    order_shape(v.len(), lt);
    let o = in_order(v.len(), lt);
    let n = newest_first(v);
    assert(o.contains(x));
    let k = o.index_of(x);
    assert(n[k] == v[x]);
    assert forall|j: int| 0 <= j < k implies !same_fold((#[trigger] n[j]).dir, n[k].dir) by {
        assert(n[j] == v[o[j]]);
        assert(stable(lt)(o[j], o[k]));
        if same_fold(n[j].dir, n[k].dir) {
            assert(stable(lt)(x, o[j]));
            assert(o[j] == x);
        }
    }
    first_kept(n, k);
}

/// A path that was added by hand loses to a store that lists its folder too,
/// whatever their times and titles: no entry for such a folder is one that was
/// added, and there is one. What was added besides stays.
pub proof fn law_store_wins(stores: Seq<GameView>, added: Seq<GameView>)
    requires
        forall|i: int| 0 <= i < stores.len() ==> (#[trigger] stores[i]).store != Store::Manual,
    ensures
        ({
            let r = scanned(stores, added);
            &&& forall|k: int|
                0 <= k < r.len() && (#[trigger] r[k]).store == Store::Manual ==> !is_again(
                    stores,
                    r[k],
                )
            &&& forall|i: int| 0 <= i < stores.len() ==> is_led(r, #[trigger] stores[i])
            &&& forall|i: int| 0 <= i < added.len() ==> is_again(r, #[trigger] added[i])
        }),
{
    let keep = |g: GameView| !is_again(stores, g);
    let f = added.filter(keep);
    let v = stores + f;
    let r = scanned(stores, added);
    law_newest_once(v);
    assert forall|k: int| 0 <= k < r.len() && (#[trigger] r[k]).store == Store::Manual implies !is_again(
        stores,
        r[k],
    ) by {
        assert(is_among(v, r[k]));
        let x = choose|x: int| 0 <= x < v.len() && #[trigger] v[x] == r[k];
        if x < stores.len() {
            assert(v[x] == stores[x]);
        } else {
            assert(v[x] == f[x - stores.len()]);
            added.lemma_filter_pred(keep, x - stores.len());
        }
    }
    assert forall|i: int| 0 <= i < stores.len() implies is_led(r, #[trigger] stores[i]) by {
        assert(v[i] == stores[i]);
    }
    assert forall|i: int| 0 <= i < added.len() implies is_again(r, #[trigger] added[i]) by {
        if keep(added[i]) {
            added.lemma_filter_contains(keep, i);
            let j = f.index_of(added[i]);
            assert(v[stores.len() + j] == added[i]);
            assert(is_led(r, v[stores.len() + j]));
        } else {
            let x = choose|x: int|
                0 <= x < stores.len() && same_fold((#[trigger] stores[x]).dir, added[i].dir);
            assert(is_led(r, v[x]));
            assert(v[x] == stores[x]);
        }
    }
}

/// A path that the list of added games gives back.
pub open spec fn plain_entry(p: Seq<char>) -> bool {
    p.len() > 0 && tight(p) && !p.contains('\n')
}

/// The list gives back the paths that were written to it.
pub proof fn law_added_list(v: Seq<Seq<char>>)
    requires
        forall|i: int| 0 <= i < v.len() ==> plain_entry(#[trigger] v[i]),
    ensures
        paths_in(list_of(v)) == v,
{
    reveal_strlit("\n");
    assert("\n"@ =~= seq!['\n']);
    let s = list_of(v);
    let keep = |l: Seq<char>| l.len() > 0;
    let ls = lines(s);
    if v.len() == 0 {
        assert(s =~= Seq::empty());
        assert(pieces(s, '\n') =~= seq![Seq::<char>::empty()]);
        assert(ls =~= v);
    } else {
        assert forall|i: int| 0 <= i < v.len() implies !(#[trigger] v[i]).contains('\n') by {
            assert(plain_entry(v[i]));
        }
        pieces_of_join(v, '\n');
        assert(plain_entry(v[v.len() - 1]));
        assert(is_space('\r'));
        let whole = v.drop_last().map_values(|l: Seq<char>| strip_cr(l));
        assert(whole =~= v.drop_last()) by {
            assert forall|i: int| 0 <= i < whole.len() implies whole[i] == v.drop_last()[i] by {
                assert(plain_entry(v[i]));
            }
        }
        assert(ls =~= v);
    }
    let t = ls.map_values(|l: Seq<char>| trim(l));
    assert(t =~= v) by {
        assert forall|i: int| 0 <= i < v.len() implies trim(v[i]) == v[i] by {
            assert(plain_entry(v[i]));
            trim_tight(v[i]);
        }
    }
    assert forall|i: int| 0 <= i < v.len() implies keep(#[trigger] v[i]) by {
        assert(plain_entry(v[i]));
    }
    filter_all(v, keep);
}

/// Whatever the list holds, its paths are such as it gives back.
proof fn paths_plain(list: Seq<char>)
    ensures
        forall|i: int| 0 <= i < paths_in(list).len() ==> plain_entry(#[trigger] paths_in(list)[i]),
{
    lines_clean(list);
    let t = lines(list).map_values(|l: Seq<char>| trim(l));
    let keep = |l: Seq<char>| l.len() > 0;
    assert forall|i: int| 0 <= i < t.len() implies tight(#[trigger] t[i]) && !t[i].contains(
        '\n',
    ) by {
        let l = lines(list)[i];
        assert(!l.contains('\n'));
        trim_within(l, '\n');
        trim_shape(l);
    }
    let f = t.filter(keep);
    assert forall|i: int| 0 <= i < f.len() implies plain_entry(#[trigger] f[i]) by {
        t.lemma_filter_pred(keep, i);
        t.lemma_filter_contains_rev(keep, f[i]);
        let k = t.index_of(f[i]);
        assert(t[k] == f[i]);
    }
}

/// A path that is remembered is on the list afterwards, behind those that were
/// there; remembering it again finds it there.
pub proof fn law_remember(list: Seq<char>, path: Seq<char>)
    requires
        plain_entry(path),
    ensures
        ({
            let after = paths_in(list_of(paths_in(list).push(path)));
            after == paths_in(list).push(path) && is_listed(after, path)
        }),
{
    paths_plain(list);
    let v = paths_in(list).push(path);
    assert forall|i: int| 0 <= i < v.len() implies plain_entry(#[trigger] v[i]) by {
        if i < paths_in(list).len() {
            assert(plain_entry(paths_in(list)[i]));
        }
    }
    law_added_list(v);
    assert(same_fold(v[v.len() - 1], path));
}

/// A path that is forgotten has nothing on the list that stands for it, and what
/// does not stand for it stays, in its order.
pub proof fn law_forget(list: Seq<char>, path: Seq<char>)
    ensures
        ({
            let keep = |e: Seq<char>| !stands_for(e, path);
            let after = paths_in(list_of(paths_in(list).filter(keep)));
            &&& after == paths_in(list).filter(keep)
            &&& forall|i: int| 0 <= i < after.len() ==> !stands_for(#[trigger] after[i], path)
            &&& !is_listed(after, path)
        }),
{
    let keep = |e: Seq<char>| !stands_for(e, path);
    let p = paths_in(list);
    let f = p.filter(keep);
    paths_plain(list);
    assert forall|i: int| 0 <= i < f.len() implies plain_entry(#[trigger] f[i]) && !stands_for(
        f[i],
        path,
    ) by {
        p.lemma_filter_pred(keep, i);
        p.lemma_filter_contains_rev(keep, f[i]);
        let k = p.index_of(f[i]);
        assert(p[k] == f[i]);
    }
    law_added_list(f);
}

} // verus!
