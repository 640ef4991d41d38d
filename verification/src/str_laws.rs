//! What splitting, joining and trimming keep.
use vstd::prelude::*;

use crate::chars::is_space;
use crate::strs::{
    after_first, at, before_first, find_from, find_from_first, join, lines, pieces, strip_cr, trim,
    trim_end, trim_start, unlines,
};

verus! {

/// No white space at either end.
pub open spec fn tight(s: Seq<char>) -> bool {
    s.len() == 0 || (!is_space(s[0]) && !is_space(s.last()))
}

proof fn trim_start_shape(s: Seq<char>) -> (a: int)
    ensures
        0 <= a <= s.len(),
        trim_start(s) == s.skip(a),
        forall|i: int| 0 <= i < a ==> is_space(s[i]),
        a < s.len() ==> !is_space(s[a]),
    decreases s.len(),
{
    if s.len() > 0 && is_space(s[0]) {
        let b = trim_start_shape(s.drop_first());
        assert(s.drop_first().skip(b) =~= s.skip(b + 1));
        assert forall|i: int| 0 <= i < b + 1 implies is_space(s[i]) by {
            if i > 0 {
                assert(s.drop_first()[i - 1] == s[i]);
            }
        }
        b + 1
    } else {
        assert(s.skip(0) =~= s);
        0
    }
}

proof fn trim_end_shape(s: Seq<char>) -> (b: int)
    ensures
        0 <= b <= s.len(),
        trim_end(s) == s.take(b),
        forall|i: int| b <= i < s.len() ==> is_space(s[i]),
        0 < b ==> !is_space(s[b - 1]),
    decreases s.len(),
{
    if s.len() > 0 && is_space(s.last()) {
        let b = trim_end_shape(s.drop_last());
        assert(s.drop_last().take(b) =~= s.take(b));
        assert forall|i: int| b <= i < s.len() implies is_space(s[i]) by {
            if i < s.len() - 1 {
                assert(s.drop_last()[i] == s[i]);
            }
        }
        b
    } else {
        assert(s.take(s.len() as int) =~= s);
        s.len() as int
    }
}

/// Trimming cuts out the part between two places, outside of which all is
/// white space.
pub proof fn trim_shape(s: Seq<char>) -> (r: (int, int))
    ensures
        0 <= r.0 <= r.1 <= s.len(),
        trim(s) == s.subrange(r.0, r.1),
        forall|i: int| 0 <= i < r.0 ==> is_space(s[i]),
        forall|i: int| r.1 <= i < s.len() ==> is_space(s[i]),
        tight(trim(s)),
{
    let a = trim_start_shape(s);
    let t = s.skip(a);
    let b = trim_end_shape(t);
    assert(t.take(b) =~= s.subrange(a, a + b));
    assert forall|i: int| a + b <= i < s.len() implies is_space(s[i]) by {
        assert(t[i - a] == s[i]);
    }
    if b > 0 {
        assert(t[b - 1] == s[a + b - 1]);
        assert(t[0] == s[a]);
    }
    (a, a + b)
}

/// What has no white space at its ends is left as it is.
pub proof fn trim_tight(s: Seq<char>)
    requires
        tight(s),
    ensures
        trim(s) == s,
{
    assert(trim_start(s) == s);
    assert(trim_end(s) == s);
}

/// A first or last character that is no white space stays where it is.
pub proof fn trim_keeps_ends(s: Seq<char>)
    requires
        s.len() > 0,
    ensures
        !is_space(s[0]) ==> trim(s).len() > 0 && trim(s)[0] == s[0],
        !is_space(s.last()) ==> trim(s).len() > 0 && trim(s).last() == s.last(),
{
    let (a, b) = trim_shape(s);
}

/// Trimming adds nothing.
pub proof fn trim_within(s: Seq<char>, c: char)
    requires
        !s.contains(c),
    ensures
        !trim(s).contains(c),
{
    let (a, b) = trim_shape(s);
    assert forall|i: int| 0 <= i < trim(s).len() implies trim(s)[i] != c by {
        assert(trim(s)[i] == s[a + i]);
    }
}

/// Where there is a `c`, the parts before and after the first one make up the
/// text, and the part before it holds none.
pub proof fn split_char_once(s: Seq<char>, c: char)
    ensures
        match after_first(s, seq![c]) {
            Some(b) => s == before_first(s, seq![c]).push(c) + b && !before_first(
                s,
                seq![c],
            ).contains(c),
            None => before_first(s, seq![c]) == s && !s.contains(c),
        },
{
    find_from_first(s, seq![c], 0);
    match find_from(s, seq![c], 0) {
        Some(k) => {
            assert(s.subrange(k, k + 1)[0] == s[k]);
            assert(s =~= s.take(k).push(c) + s.skip(k + 1));
            assert forall|i: int| 0 <= i < k implies s.take(k)[i] != c by {
                assert(!at(s, seq![c], i));
                if s[i] == c {
                    assert(s.subrange(i, i + 1) =~= seq![c]);
                }
            }
        },
        None => {
            assert forall|i: int| 0 <= i < s.len() implies s[i] != c by {
                assert(!at(s, seq![c], i));
                if s[i] == c {
                    assert(s.subrange(i, i + 1) =~= seq![c]);
                }
            }
        },
    }
}

pub proof fn pieces_some(s: Seq<char>, c: char)
    ensures
        pieces(s, c).len() > 0,
    decreases s.len(),
{
    if s.len() > 0 {
        pieces_some(s.drop_last(), c);
    }
}

/// No piece holds the separator.
pub proof fn pieces_clean(s: Seq<char>, c: char)
    ensures
        forall|i: int| 0 <= i < pieces(s, c).len() ==> !(#[trigger] pieces(s, c)[i]).contains(c),
    decreases s.len(),
{
    if s.len() > 0 {
        pieces_clean(s.drop_last(), c);
        pieces_some(s.drop_last(), c);
        let p = pieces(s.drop_last(), c);
        assert(!p.last().contains(c));
        assert forall|i: int| 0 <= i < pieces(s, c).len() implies !(#[trigger] pieces(
            s,
            c,
        )[i]).contains(c) by {
            if s.last() != c && i == p.len() - 1 {
                let q = p.last().push(s.last());
                assert forall|j: int| 0 <= j < q.len() implies q[j] != c by {
                    if j < p.last().len() {
                        assert(q[j] == p.last()[j]);
                    }
                }
            }
        }
    }
}

/// A text without the separator adds to the last piece.
pub proof fn pieces_extend(a: Seq<char>, b: Seq<char>, c: char)
    requires
        !b.contains(c),
    ensures
        pieces(a + b, c) == pieces(a, c).drop_last().push(pieces(a, c).last() + b),
    decreases b.len(),
{
    pieces_some(a, c);
    let p = pieces(a, c);
    if b.len() == 0 {
        assert(a + b =~= a);
        assert(p.last() + b =~= p.last());
        assert(p =~= p.drop_last().push(p.last()));
    } else {
        assert((a + b).drop_last() =~= a + b.drop_last());
        assert forall|i: int| 0 <= i < b.drop_last().len() implies b.drop_last()[i] != c by {
            assert(b[i] != c);
        }
        pieces_extend(a, b.drop_last(), c);
        assert(b.last() != c);
        let q = p.drop_last().push(p.last() + b.drop_last());
        assert(q.drop_last() =~= p.drop_last());
        assert((p.last() + b.drop_last()).push(b.last()) =~= p.last() + b);
    }
}

/// Pieces joined with their separator and split again are the same pieces.
pub proof fn pieces_of_join(ps: Seq<Seq<char>>, c: char)
    requires
        ps.len() > 0,
        forall|i: int| 0 <= i < ps.len() ==> !(#[trigger] ps[i]).contains(c),
    ensures
        pieces(join(ps, seq![c]), c) == ps,
    decreases ps.len(),
{
    let e = Seq::<char>::empty();
    if ps.len() == 1 {
        pieces_extend(e, ps[0], c);
        assert(e + ps[0] =~= ps[0]);
        assert(pieces(e, c) =~= seq![e]);
        assert(pieces(ps[0], c) =~= ps);
    } else {
        let a = join(ps.drop_last(), seq![c]);
        pieces_of_join(ps.drop_last(), c);
        assert((a + seq![c]).drop_last() =~= a);
        assert(pieces(a + seq![c], c) =~= ps.drop_last().push(e));
        assert(!ps[ps.len() - 1].contains(c));
        pieces_extend(a + seq![c], ps.last(), c);
        assert(e + ps.last() =~= ps.last());
        assert(ps.drop_last().push(e).drop_last() =~= ps.drop_last());
        assert(ps.drop_last().push(ps.last()) =~= ps);
    }
}

/// The pieces of a text joined with their separator are the text.
pub proof fn join_of_pieces(s: Seq<char>, c: char)
    ensures
        join(pieces(s, c), seq![c]) == s,
    decreases s.len(),
{
    pieces_some(s, c);
    if s.len() > 0 {
        join_of_pieces(s.drop_last(), c);
        pieces_some(s.drop_last(), c);
        let p = pieces(s.drop_last(), c);
        if s.last() == c {
            assert(p.push(Seq::empty()).drop_last() =~= p);
            assert(s.drop_last() + seq![c] + Seq::<char>::empty() =~= s);
        } else {
            let q = p.drop_last().push(p.last().push(s.last()));
            assert(q.drop_last() =~= p.drop_last());
            if p.len() == 1 {
                assert(q[0] =~= s);
            } else {
                let head = join(p.drop_last(), seq![c]) + seq![c];
                assert(head + p.last() == s.drop_last());
                assert(head + p.last().push(s.last()) =~= (head + p.last()).push(s.last()));
                assert(s.drop_last().push(s.last()) =~= s);
                assert(q.last() == p.last().push(s.last()));
            }
        }
    }
}

/// Can it stand as a line of a text?
pub open spec fn is_line(l: Seq<char>) -> bool {
    !l.contains('\n') && (l.len() > 0 ==> l.last() != '\r')
}

proof fn pieces_of_unlines(ls: Seq<Seq<char>>)
    requires
        forall|i: int| 0 <= i < ls.len() ==> is_line(#[trigger] ls[i]),
    ensures
        pieces(unlines(ls), '\n') == ls.push(Seq::empty()),
    decreases ls.len(),
{
    let e = Seq::<char>::empty();
    if ls.len() > 0 {
        let l = ls.last();
        let u = unlines(ls.drop_last());
        pieces_of_unlines(ls.drop_last());
        assert(is_line(ls[ls.len() - 1]));
        pieces_extend(u, l, '\n');
        assert(e + l =~= l);
        assert(ls.drop_last().push(e).drop_last() =~= ls.drop_last());
        assert(ls.drop_last().push(l) =~= ls);
        assert((u + l.push('\n')).drop_last() =~= u + l);
    } else {
        assert(ls.push(e) =~= seq![e]);
    }
}

/// Lines written down one after the other are read back as they were.
pub proof fn lines_of_unlines(ls: Seq<Seq<char>>)
    requires
        forall|i: int| 0 <= i < ls.len() ==> is_line(#[trigger] ls[i]),
    ensures
        lines(unlines(ls)) == ls,
{
    pieces_of_unlines(ls);
    let p = ls.push(Seq::empty());
    assert(p.drop_last() =~= ls);
    assert(ls.map_values(|l: Seq<char>| strip_cr(l)) =~= ls) by {
        assert forall|i: int| 0 <= i < ls.len() implies strip_cr(ls[i]) == ls[i] by {
            assert(is_line(ls[i]));
        }
    }
}

/// No line holds a line feed.
pub proof fn lines_clean(s: Seq<char>)
    ensures
        forall|i: int| 0 <= i < lines(s).len() ==> !(#[trigger] lines(s)[i]).contains('\n'),
{
    pieces_clean(s, '\n');
    pieces_some(s, '\n');
    let p = pieces(s, '\n');
    assert forall|i: int| 0 <= i < lines(s).len() implies !(#[trigger] lines(s)[i]).contains(
        '\n',
    ) by {
        assert(!p[i].contains('\n'));
        if i < p.len() - 1 {
            let l = strip_cr(p[i]);
            assert forall|j: int| 0 <= j < l.len() implies l[j] != '\n' by {
                assert(l[j] == p[i][j]);
            }
        }
    }
}

/// Where all is kept, filtering changes nothing.
pub proof fn filter_all(v: Seq<Seq<char>>, keep: spec_fn(Seq<char>) -> bool)
    requires
        forall|i: int| 0 <= i < v.len() ==> keep(#[trigger] v[i]),
    ensures
        v.filter(keep) == v,
    decreases v.len(),
{
    reveal(Seq::filter);
    if v.len() > 0 {
        let u = v.drop_last();
        assert forall|i: int| 0 <= i < u.len() implies keep(#[trigger] u[i]) by {
            assert(keep(v[i]));
        }
        filter_all(u, keep);
        assert(keep(v[v.len() - 1]));
        assert(u.push(v.last()) =~= v);
    }
}

} // verus!
