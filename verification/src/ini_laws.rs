//! What reading, changing and writing an .ini file keep.
use vstd::prelude::*;

use crate::reshade_ini::{
    define_name, entry_from, escaped, is_our_addon, is_ours, item, items, items_from, listed,
    opened, section_from, value_of, with_define, with_entry, with_techniques, with_value,
    without_our_addons, without_techniques, Entry, Section, FEED_TECHNIQUE, PROVIDER_TECHNIQUE,
};
use crate::strs::{join, same_fold};

verus! {

/// The section found is the first of that name.
pub proof fn section_from_first(m: Seq<Section>, name: Seq<char>, i: int)
    requires
        0 <= i,
    ensures
        match section_from(m, name, i) {
            Some(k) => i <= k < m.len() && same_fold(m[k].0, name) && forall|j: int|
                i <= j < k ==> !same_fold((#[trigger] m[j]).0, name),
            None => forall|j: int| i <= j < m.len() ==> !same_fold((#[trigger] m[j]).0, name),
        },
    decreases m.len() - i,
{
    if i < m.len() && !same_fold(m[i].0, name) {
        section_from_first(m, name, i + 1);
    }
}

proof fn section_from_is(m: Seq<Section>, name: Seq<char>, k: int)
    requires
        0 <= k < m.len(),
        same_fold(m[k].0, name),
        forall|j: int| 0 <= j < k ==> !same_fold((#[trigger] m[j]).0, name),
    ensures
        section_from(m, name, 0) == Some(k),
{
    section_from_first(m, name, 0);
}

proof fn section_from_is_none(m: Seq<Section>, name: Seq<char>)
    requires
        forall|j: int| 0 <= j < m.len() ==> !same_fold((#[trigger] m[j]).0, name),
    ensures
        section_from(m, name, 0) is None,
{
    section_from_first(m, name, 0);
}

/// The entry found is the first with that key.
pub proof fn entry_from_first(kv: Seq<Entry>, key: Seq<char>, i: int)
    requires
        0 <= i,
    ensures
        match entry_from(kv, key, i) {
            Some(k) => i <= k < kv.len() && same_fold(kv[k].0, key) && forall|j: int|
                i <= j < k ==> !same_fold((#[trigger] kv[j]).0, key),
            None => forall|j: int| i <= j < kv.len() ==> !same_fold((#[trigger] kv[j]).0, key),
        },
    decreases kv.len() - i,
{
    if i < kv.len() && !same_fold(kv[i].0, key) {
        entry_from_first(kv, key, i + 1);
    }
}

proof fn entry_from_is(kv: Seq<Entry>, key: Seq<char>, k: int)
    requires
        0 <= k < kv.len(),
        same_fold(kv[k].0, key),
        forall|j: int| 0 <= j < k ==> !same_fold((#[trigger] kv[j]).0, key),
    ensures
        entry_from(kv, key, 0) == Some(k),
{
    entry_from_first(kv, key, 0);
}

/// An opened section keeps the others where they are, and is the one that is
/// found under its name.
proof fn opened_shape(m: Seq<Section>, name: Seq<char>)
    ensures
        ({
            let (o, i) = opened(m, name);
            &&& 0 <= i < o.len()
            &&& m.len() <= o.len() <= m.len() + 1
            &&& o.take(m.len() as int) == m
            &&& o.len() > m.len() ==> i == m.len() && o[i] == (name, Seq::<Entry>::empty())
            &&& same_fold(o[i].0, name)
            &&& section_from(o, name, 0) == Some(i)
        }),
{
    section_from_first(m, name, 0);
    let (o, i) = opened(m, name);
    if section_from(m, name, 0) is None {
        assert(o.take(m.len() as int) =~= m);
        assert forall|j: int| 0 <= j < i implies !same_fold((#[trigger] o[j]).0, name) by {
            assert(o[j] == m[j]);
        }
        section_from_is(o, name, i);
    } else {
        assert(m.take(m.len() as int) =~= m);
    }
}

/// A value that is set is the value that is read.
pub proof fn law_set_then_get(m: Seq<Section>, section: Seq<char>, key: Seq<char>, value: Seq<char>)
    ensures
        value_of(with_value(m, section, key, value), section, key) == Some(value),
{
    let (o, i) = opened(m, section);
    opened_shape(m, section);
    let w = with_value(m, section, key, value);
    section_from_first(o, section, 0);
    assert forall|j: int| 0 <= j < i implies !same_fold((#[trigger] w[j]).0, section) by {
        assert(w[j] == o[j]);
    }
    section_from_is(w, section, i);
    let kv = o[i].1;
    entry_from_first(kv, key, 0);
    let nkv = with_entry(kv, key, value);
    match entry_from(kv, key, 0) {
        Some(k) => {
            assert forall|j: int| 0 <= j < k implies !same_fold((#[trigger] nkv[j]).0, key) by {
                assert(nkv[j] == kv[j]);
            }
            entry_from_is(nkv, key, k);
        },
        None => {
            assert forall|j: int| 0 <= j < kv.len() implies !same_fold((#[trigger] nkv[j]).0, key) by {
                assert(nkv[j] == kv[j]);
            }
            entry_from_is(nkv, key, kv.len() as int);
        },
    }
}

proof fn entry_elsewhere(kv: Seq<Entry>, key: Seq<char>, value: Seq<char>, other: Seq<char>)
    requires
        !same_fold(key, other),
    ensures
        entry_from(with_entry(kv, key, value), other, 0) == entry_from(kv, other, 0),
        entry_from(kv, other, 0) matches Some(k) ==> with_entry(kv, key, value)[k] == kv[k],
{
    let n = with_entry(kv, key, value);
    entry_from_first(kv, other, 0);
    entry_from_first(kv, key, 0);
    entry_from_first(n, other, 0);
    assert forall|j: int| 0 <= j < kv.len() implies (#[trigger] n[j]).0 == kv[j].0 by {}
    match entry_from(kv, other, 0) {
        Some(k) => {
            assert forall|j: int| 0 <= j < k implies !same_fold((#[trigger] n[j]).0, other) by {
                assert(n[j].0 == kv[j].0);
            }
            assert(n[k].0 == kv[k].0);
            entry_from_is(n, other, k);
        },
        None => {
            assert forall|j: int| 0 <= j < n.len() implies !same_fold((#[trigger] n[j]).0, other) by {
                if j < kv.len() {
                    assert(n[j].0 == kv[j].0);
                }
            }
        },
    }
}

/// Setting a value changes no other: every other key of the section, and every
/// other section, reads as before.
pub proof fn law_set_keeps_others(
    m: Seq<Section>,
    section: Seq<char>,
    key: Seq<char>,
    value: Seq<char>,
    section2: Seq<char>,
    key2: Seq<char>,
)
    requires
        !(same_fold(section, section2) && same_fold(key, key2)),
    ensures
        value_of(with_value(m, section, key, value), section2, key2) == value_of(
            m,
            section2,
            key2,
        ),
{
    let (o, i) = opened(m, section);
    opened_shape(m, section);
    let w = with_value(m, section, key, value);
    section_from_first(m, section2, 0);
    section_from_first(m, section, 0);
    assert forall|j: int| 0 <= j < m.len() implies o[j] == #[trigger] m[j] by {
        assert(o.take(m.len() as int)[j] == m[j]);
    }
    match section_from(m, section2, 0) {
        Some(k) => {
            assert forall|j: int| 0 <= j < k implies !same_fold((#[trigger] w[j]).0, section2) by {
                assert(m[j] == o[j]);
            }
            assert(w[k].0 == m[k].0);
            section_from_is(w, section2, k);
            if k == i {
                if o.len() == m.len() {
                    entry_elsewhere(m[i].1, key, value, key2);
                }
            } else {
                assert(w[k] == m[k]);
            }
        },
        None => {
            if same_fold(section, section2) {
                // The section is new: it holds the new entry alone.
                assert forall|j: int| 0 <= j < m.len() implies !same_fold(
                    (#[trigger] w[j]).0,
                    section2,
                ) by {
                    assert(m[j] == o[j]);
                }
                assert(o.len() > m.len()) by {
                    if o.len() == m.len() {
                        assert(!same_fold(m[i].0, section2));
                    }
                }
                section_from_is(w, section2, i);
                entry_elsewhere(Seq::empty(), key, value, key2);
            } else {
                assert forall|j: int| 0 <= j < w.len() implies !same_fold(
                    (#[trigger] w[j]).0,
                    section2,
                ) by {
                    if j < m.len() {
                        assert(m[j] == o[j]);
                        assert(w[j].0 == m[j].0);
                    }
                }
                section_from_is_none(w, section2);
            }
        },
    }
}

/// A list that its value gives back: no item is empty, and none but the first
/// begins with a comma.
pub open spec fn listable(v: Seq<Seq<char>>) -> bool {
    &&& forall|i: int| 0 <= i < v.len() ==> (#[trigger] v[i]).len() > 0
    &&& forall|i: int| 1 <= i < v.len() ==> (#[trigger] v[i])[0] != ','
}

proof fn escaped_push(x: Seq<char>, c: char)
    ensures
        escaped(x.push(c)) == escaped(x) + (if c == ',' {
            ",,"@
        } else {
            seq![c]
        }),
{
    assert(x.push(c).drop_last() =~= x);
}

/// Reading an escaped item yields the item.
proof fn scan_item(s: Seq<char>, a: int, x: Seq<char>, cur: Seq<char>)
    requires
        0 <= a,
        a + escaped(x).len() <= s.len(),
        s.subrange(a, a + escaped(x).len()) == escaped(x),
    ensures
        items_from(s, a, cur) == items_from(s, a + escaped(x).len(), cur + x),
    decreases x.len(),
{
    if x.len() == 0 {
        assert(cur + x =~= cur);
    } else {
        let y = x.drop_last();
        let c = x.last();
        reveal_strlit(",,");
        escaped_push(y, c);
        assert(y.push(c) =~= x);
        let n = a + escaped(y).len();
        assert(s.subrange(a, n) =~= escaped(x).take(escaped(y).len() as int));
        assert(escaped(x).take(escaped(y).len() as int) =~= escaped(y));
        scan_item(s, a, y, cur);
        assert(s[n] == escaped(x)[n - a]);
        if c == ',' {
            assert(s[n + 1] == escaped(x)[n + 1 - a]);
        }
        assert((cur + y).push(c) =~= cur + x);
    }
}

proof fn escaped_first(x: Seq<char>)
    requires
        x.len() > 0,
        x[0] != ',',
    ensures
        escaped(x).len() > 0,
        escaped(x)[0] == x[0],
    decreases x.len(),
{
    reveal_strlit(",,");
    let y = x.drop_last();
    escaped_push(y, x.last());
    assert(y.push(x.last()) =~= x);
    if y.len() == 0 {
        assert(escaped(y).len() == 0);
    } else {
        escaped_first(y);
    }
}

spec fn escapes(v: Seq<Seq<char>>) -> Seq<Seq<char>> {
    v.map_values(|s: Seq<char>| escaped(s))
}

/// A longer list begins with the value of a shorter one, and a comma follows.
proof fn join_prefix(ps: Seq<Seq<char>>, sep: Seq<char>, k: int)
    requires
        1 <= k < ps.len(),
    ensures
        ({
            let a = join(ps.take(k), sep);
            let b = a + sep + ps[k];
            &&& b.len() <= join(ps, sep).len()
            &&& join(ps, sep).take(b.len() as int) == b
        }),
    decreases ps.len() - k,
{
    assert(ps.take(k + 1).drop_last() =~= ps.take(k));
    let b = join(ps.take(k), sep) + sep + ps[k];
    assert(join(ps.take(k + 1), sep) == b);
    if k + 1 == ps.len() {
        assert(ps.take(k + 1) =~= ps);
        assert(b.take(b.len() as int) =~= b);
    } else {
        join_prefix(ps, sep, k + 1);
        let c = b + sep + ps[k + 1];
        let j = join(ps, sep);
        assert(j.take(b.len() as int) =~= j.take(c.len() as int).take(b.len() as int));
        assert(c.take(b.len() as int) =~= b);
    }
}

proof fn items_of_listed(v: Seq<Seq<char>>, k: int)
    requires
        listable(v),
        1 <= k <= v.len(),
    ensures
        items(listed(v)) == v.take(k - 1) + items_from(
            listed(v),
            join(escapes(v).take(k), ","@).len() as int,
            v[k - 1],
        ),
        join(escapes(v).take(k), ","@).len() <= listed(v).len(),
    decreases k,
{
    reveal_strlit(",");
    let e = escapes(v);
    let l = listed(v);
    let n = join(e.take(k), ","@).len() as int;
    assert(e.len() == v.len());
    if k == 1 {
        assert(join(e.take(1), ","@) =~= e[0]);
        if e.len() > 1 {
            join_prefix(e, ","@, 1);
            let b = e[0] + ","@ + e[1];
            assert(l.subrange(0, n) =~= l.take(b.len() as int).take(n));
            assert(b.take(n) =~= e[0]);
        } else {
            assert(e.take(1) =~= e);
            assert(l.subrange(0, n) =~= e[0]);
        }
        scan_item(l, 0, v[0], Seq::empty());
        assert(Seq::<char>::empty() + v[0] =~= v[0]);
        assert(v.take(0) + items_from(l, n, v[0]) =~= items_from(l, n, v[0]));
    } else {
        items_of_listed(v, k - 1);
        join_prefix(e, ","@, k - 1);
        let a = join(e.take(k - 1), ","@);
        let x = v[k - 1];
        let b = a + ","@ + e[k - 1];
        assert(e.take(k).drop_last() =~= e.take(k - 1));
        assert(join(e.take(k), ","@) == b);
        let m = a.len() as int;
        assert(l[m] == l.take(b.len() as int)[m]);
        escaped_first(x);
        assert(l[m + 1] == l.take(b.len() as int)[m + 1]);
        assert(v[k - 2].len() > 0);
        assert(items_from(l, m, v[k - 2]) == seq![v[k - 2]] + items_from(l, m + 1, Seq::empty()));
        assert(l.subrange(m + 1, m + 1 + escaped(x).len()) =~= l.take(b.len() as int).skip(m + 1));
        assert(b.skip(m + 1) =~= e[k - 1]);
        scan_item(l, m + 1, x, Seq::empty());
        assert(Seq::<char>::empty() + x =~= x);
        assert(v.take(k - 2) + (seq![v[k - 2]] + items_from(l, n, x)) =~= v.take(k - 1)
            + items_from(l, n, x));
    }
}

/// Splitting a joined list gives the list back.
pub proof fn law_split_of_join(v: Seq<Seq<char>>)
    requires
        listable(v),
    ensures
        items(listed(v)) == v,
{
    if v.len() == 0 {
        assert(items(listed(v)) =~= v);
    } else {
        let n = v.len() as int;
        items_of_listed(v, n);
        assert(escapes(v).take(n) =~= escapes(v));
        assert(v[n - 1].len() > 0);
        assert(v.take(n - 1) + seq![v[n - 1]] =~= v);
    }
}

proof fn items_from_listable(s: Seq<char>, i: int, cur: Seq<char>)
    requires
        0 <= i,
    ensures
        listable(items_from(s, i, cur)),
        cur.len() > 0 ==> items_from(s, i, cur).len() > 0 && items_from(s, i, cur)[0][0] == cur[0],
        cur.len() == 0 && (i >= s.len() || s[i] != ',') && items_from(s, i, cur).len() > 0
            ==> items_from(s, i, cur)[0][0] != ',',
    decreases s.len() - i,
{
    if i >= s.len() {
    } else if s[i] != ',' {
        items_from_listable(s, i + 1, cur.push(s[i]));
    } else if i + 1 < s.len() && s[i + 1] == ',' {
        items_from_listable(s, i + 2, cur.push(','));
    } else {
        items_from_listable(s, i + 1, Seq::empty());
        let r = items_from(s, i + 1, Seq::empty());
        let w = items_from(s, i, cur);
        assert(w == item(cur) + r);
        if cur.len() == 0 {
            assert(w =~= r);
        } else {
            assert forall|j: int| 1 <= j < w.len() implies (#[trigger] w[j])[0] != ',' by {
                assert(w[j] == r[j - 1]);
            }
            assert forall|j: int| 0 <= j < w.len() implies (#[trigger] w[j]).len() > 0 by {
                if j > 0 {
                    assert(w[j] == r[j - 1]);
                }
            }
        }
    }
}

/// What splitting yields can be joined and split again without a change.
pub proof fn law_split_is_listable(raw: Seq<char>)
    ensures
        listable(items(raw)),
        items(listed(items(raw))) == items(raw),
{
    items_from_listable(raw, 0, Seq::empty());
    law_split_of_join(items(raw));
}

/// What is kept of a list that its value gives back is such a list.
proof fn filter_listable(v: Seq<Seq<char>>, keep: spec_fn(Seq<char>) -> bool)
    requires
        listable(v),
    ensures
        listable(v.filter(keep)),
        (v.len() > 0 ==> v[0][0] != ',') ==> (v.filter(keep).len() > 0 ==> v.filter(
            keep,
        )[0][0] != ','),
        v.filter(keep).filter(keep) == v.filter(keep),
    decreases v.len(),
{
    reveal(Seq::filter);
    if v.len() > 0 {
        let u = v.drop_last();
        assert forall|i: int| 0 <= i < u.len() implies (#[trigger] u[i]).len() > 0 by {
            assert(v[i].len() > 0);
        }
        assert forall|i: int| 1 <= i < u.len() implies (#[trigger] u[i])[0] != ',' by {
            assert(v[i][0] != ',');
        }
        filter_listable(u, keep);
        let f = u.filter(keep);
        assert(v.last().len() > 0);
        if keep(v.last()) {
            let g = f.push(v.last());
            assert(g.drop_last() =~= f);
            assert(v.filter(keep) == g);
        }
    }
}

/// What a filtered list holds.
proof fn filter_holds(v: Seq<Seq<char>>, keep: spec_fn(Seq<char>) -> bool, x: Seq<char>)
    ensures
        v.filter(keep).contains(x) <==> v.contains(x) && keep(x),
    decreases v.len(),
{
    reveal(Seq::filter);
    if v.len() > 0 {
        let u = v.drop_last();
        filter_holds(u, keep, x);
        let f = u.filter(keep);
        let g = v.filter(keep);
        if f.contains(x) {
            let i = f.index_of(x);
            assert(g[i] == x);
        }
        if u.contains(x) {
            let j = u.index_of(x);
            assert(v[j] == x);
        }
        if v.contains(x) && keep(x) && !u.contains(x) {
            let j = v.index_of(x);
            assert(j == v.len() - 1) by {
                if j < u.len() {
                    assert(u[j] == x);
                }
            }
            assert(g[f.len() as int] == x);
        }
        if g.contains(x) && !f.contains(x) {
            let i = g.index_of(x);
            if i < f.len() {
                assert(f[i] == x);
            }
            assert(v[v.len() - 1] == x);
        }
    }
}

/// A definition that is added ends the list, no other of its name stays, the
/// rest is kept in order, and adding it again changes nothing.
pub proof fn law_define(raw: Seq<char>, define: Seq<char>)
    requires
        define.len() > 0,
        define[0] != ',',
    ensures
        items(with_define(raw, define)) == items(raw).filter(
            |d: Seq<char>| define_name(d) != define_name(define),
        ).push(define),
        with_define(with_define(raw, define), define) == with_define(raw, define),
{
    let keep = |d: Seq<char>| define_name(d) != define_name(define);
    law_split_is_listable(raw);
    filter_listable(items(raw), keep);
    let f = items(raw).filter(keep);
    let v = f.push(define);
    law_split_of_join(v);
    reveal(Seq::filter);
    assert(v.drop_last() =~= f);
    assert(v.filter(keep) == f);
}

/// The two techniques head the list, the provider above the feed; the others
/// follow in their order, and enabling them again changes nothing.
pub proof fn law_techniques_enabled(raw: Seq<char>)
    requires
        items(raw).len() > 0 ==> items(raw)[0][0] != ',',
    ensures
        items(with_techniques(raw)) == seq![PROVIDER_TECHNIQUE@, FEED_TECHNIQUE@] + items(raw).filter(
            |t: Seq<char>| !is_ours(t),
        ),
        with_techniques(with_techniques(raw)) == with_techniques(raw),
{
    reveal_strlit("Lumenite_Kernel@lumenite_Kernel.fx");
    reveal_strlit("DLSS5_Feed@DLSS5_Feed.fx");
    let keep = |t: Seq<char>| !is_ours(t);
    law_split_is_listable(raw);
    filter_listable(items(raw), keep);
    let f = items(raw).filter(keep);
    let two = seq![PROVIDER_TECHNIQUE@, FEED_TECHNIQUE@];
    let v = two + f;
    assert(listable(v)) by {
        assert forall|i: int| 1 <= i < v.len() implies (#[trigger] v[i])[0] != ',' by {
            if i >= 2 {
                assert(v[i] == f[i - 2]);
            }
        }
        assert forall|i: int| 0 <= i < v.len() implies (#[trigger] v[i]).len() > 0 by {
            if i >= 2 {
                assert(v[i] == f[i - 2]);
            }
        }
    }
    law_split_of_join(v);
    filter_after(two, f, keep);
}

/// Nothing of `a` is kept.
proof fn filter_after(a: Seq<Seq<char>>, b: Seq<Seq<char>>, keep: spec_fn(Seq<char>) -> bool)
    requires
        forall|i: int| 0 <= i < a.len() ==> !keep(#[trigger] a[i]),
    ensures
        (a + b).filter(keep) == b.filter(keep),
    decreases a.len() + b.len(),
{
    reveal(Seq::filter);
    if b.len() > 0 {
        assert((a + b).drop_last() =~= a + b.drop_last());
        filter_after(a, b.drop_last(), keep);
    } else if a.len() > 0 {
        assert(a + b =~= a);
        assert(a.drop_last() + b =~= a.drop_last());
        filter_after(a.drop_last(), b, keep);
        assert(!keep(a[a.len() - 1]));
    }
}

/// Disabling the two techniques keeps the others, in their order, and undoes
/// what enabling them did.
pub proof fn law_techniques_disabled(raw: Seq<char>)
    ensures
        items(without_techniques(raw)) == items(raw).filter(|t: Seq<char>| !is_ours(t)),
        forall|t: Seq<char>|
            #[trigger] items(without_techniques(raw)).contains(t) <==> items(raw).contains(t) && !is_ours(t),
        (items(raw).len() > 0 ==> items(raw)[0][0] != ',') ==> without_techniques(
            with_techniques(raw),
        ) == without_techniques(raw),
{
    let keep = |t: Seq<char>| !is_ours(t);
    law_split_is_listable(raw);
    filter_listable(items(raw), keep);
    law_split_of_join(items(raw).filter(keep));
    assert forall|t: Seq<char>| #[trigger]
        items(without_techniques(raw)).contains(t) <==> items(raw).contains(t) && !is_ours(t) by {
        filter_holds(items(raw), keep, t);
    }
    if items(raw).len() > 0 ==> items(raw)[0][0] != ',' {
        law_techniques_enabled(raw);
        filter_after(
            seq![PROVIDER_TECHNIQUE@, FEED_TECHNIQUE@],
            items(raw).filter(keep),
            keep,
        );
    }
}

/// Enabling this tool's add-ons again takes them, and nothing else, off the
/// list of disabled ones.
pub proof fn law_addons_cleared(raw: Seq<char>)
    ensures
        items(without_our_addons(raw)) == items(raw).filter(|e: Seq<char>| !is_our_addon(e)),
        forall|e: Seq<char>|
            #[trigger] items(without_our_addons(raw)).contains(e) <==> items(raw).contains(e)
                && !is_our_addon(e),
{
    let keep = |e: Seq<char>| !is_our_addon(e);
    law_split_is_listable(raw);
    filter_listable(items(raw), keep);
    law_split_of_join(items(raw).filter(keep));
    assert forall|e: Seq<char>| #[trigger]
        items(without_our_addons(raw)).contains(e) <==> items(raw).contains(e) && !is_our_addon(
            e,
        ) by {
        filter_holds(items(raw), keep, e);
    }
}

} // verus!
