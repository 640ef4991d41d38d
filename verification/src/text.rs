//! Tidying for the long messages this tool shows.
use vstd::prelude::*;

use crate::chars::{is_space, space};
use crate::strs::{gaps, join, words};

verus! {

/// The text with each run of white space as one space, and none at the ends.
pub open spec fn tidied(s: Seq<char>) -> Seq<char> {
    join(words(s), " "@)
}

/// The same, read from the left: a space that is due is written before the next
/// character.
spec fn swept(s: Seq<char>) -> (Seq<char>, bool)
    decreases s.len(),
{
    if s.len() == 0 {
        (Seq::empty(), false)
    } else {
        let (out, due) = swept(s.drop_last());
        let c = s.last();
        if is_space(c) {
            (out, true)
        } else if due && out.len() > 0 {
            (out.push(' ').push(c), false)
        } else {
            (out.push(c), false)
        }
    }
}

/// Collapse every run of white space to a single space and trim the ends.
/// Applied to text on its way to the user, never to text on its way to a file.
pub fn tidy(s: &str) -> (r: String)
    ensures
        r@ == tidied(s@),
{
    let mut out = String::new();
    let mut due = false;
    assert(s@.take(0) =~= Seq::empty());
    for c in it: s.chars()
        invariant
            it.seq() == s@,
            (out@, due) == swept(s@.take(it.index())),
    {
        assert(s@.take(it.index() + 1).drop_last() =~= s@.take(it.index()));
        if space(c) {
            due = true;
        } else {
            if due && !out.as_str().is_empty() {
                out.push(' ');
            }
            due = false;
            out.push(c);
        }
    }
    assert(s@.take(s@.len() as int) =~= s@);
    proof {
        swept_words(s@);
    }
    out
}

/// A space is due after white space, and what is written is the words, one space
/// between two of them.
proof fn swept_words(s: Seq<char>)
    ensures
        swept(s).0 == tidied(s),
        swept(s).1 == (s.len() > 0 && is_space(s.last())),
        gaps(s).len() > 0,
        gaps(s).last().len() == 0 <==> s.len() == 0 || is_space(s.last()),
        tidied(s).len() == 0 <==> words(s).len() == 0,
    decreases s.len(),
{
    reveal(Seq::filter);
    reveal_strlit(" ");
    let keep = |w: Seq<char>| w.len() > 0;
    let g = gaps(s);
    if s.len() == 0 {
        assert(g.drop_last() =~= Seq::empty());
        assert(g.drop_last().filter(keep) =~= Seq::empty());
        assert(words(s) =~= Seq::empty());
    } else {
        let u = s.drop_last();
        let c = s.last();
        swept_words(u);
        let h = gaps(u);
        let w = h.drop_last().filter(keep);
        if is_space(c) {
            assert(g.drop_last() =~= h);
            assert(words(s) =~= words(u));
        } else {
            let l = h.last().push(c);
            assert(g.drop_last() =~= h.drop_last());
            assert(words(s) == w.push(l));
            assert(w.push(l).drop_last() =~= w);
            if h.last().len() > 0 {
                assert(words(u) == w.push(h.last()));
                assert(w.push(h.last()).drop_last() =~= w);
                assert(tidied(s) =~= tidied(u).push(c));
            } else {
                assert(words(u) == w);
                assert(h.last() =~= Seq::empty());
                assert(l =~= seq![c]);
                if w.len() == 0 {
                    assert(tidied(s) =~= seq![c]);
                    assert(tidied(u) =~= Seq::empty());
                } else {
                    assert(tidied(s) =~= tidied(u).push(' ').push(c));
                }
            }
        }
    }
}

/// White space only as single spaces between other characters.
pub open spec fn is_tidy(s: Seq<char>) -> bool {
    &&& s.len() > 0 ==> !is_space(s[0]) && !is_space(s.last())
    &&& forall|i: int| 0 <= i < s.len() && is_space(#[trigger] s[i]) ==> s[i] == ' '
    &&& forall|i: int|
        0 < i < s.len() && is_space(#[trigger] s[i]) ==> !is_space(s[i - 1])
}

/// The characters that are no white space.
pub open spec fn ink(s: Seq<char>) -> Seq<char> {
    s.filter(|c: char| !is_space(c))
}

/// What is tidied is tidy, keeps all that is no white space, in its order, and
/// what is tidy stays as it is.
pub proof fn law_tidy(s: Seq<char>)
    ensures
        is_tidy(tidied(s)),
        ink(tidied(s)) == ink(s),
        is_tidy(s) ==> tidied(s) == s,
{
    swept_words(s);
    swept_tidy(s);
}

proof fn swept_tidy(s: Seq<char>)
    ensures
        is_tidy(swept(s).0),
        ink(swept(s).0) == ink(s),
        is_tidy(s) ==> swept(s).0 == s,
    decreases s.len(),
{
    reveal(Seq::filter);
    assert(is_space(' '));
    if s.len() > 0 {
        let u = s.drop_last();
        let c = s.last();
        swept_tidy(u);
        let (out, due) = swept(u);
        let t = swept(s).0;
        if !is_space(c) {
            if due && out.len() > 0 {
                let m = out.push(' ');
                assert(m.drop_last() =~= out);
                assert(t.drop_last() =~= m);
                assert(ink(m) == ink(out));
                assert forall|i: int| 0 < i < t.len() && is_space(#[trigger] t[i]) implies !is_space(
                    t[i - 1],
                ) by {
                    if i < out.len() {
                        assert(is_space(out[i]));
                    } else if i == out.len() {
                        assert(t[i - 1] == out.last());
                    }
                }
            } else {
                assert(t.drop_last() =~= out);
                assert forall|i: int| 0 < i < t.len() && is_space(#[trigger] t[i]) implies !is_space(
                    t[i - 1],
                ) by {
                    assert(is_space(out[i]));
                }
            }
        }
        if is_tidy(s) {
            tidy_prefix(s);
        }
    }
}

/// A tidy text is read without a change; after a space, that space is due.
proof fn tidy_prefix(s: Seq<char>)
    requires
        s.len() > 0,
        !is_space(s[0]),
        forall|i: int| 0 <= i < s.len() && is_space(#[trigger] s[i]) ==> s[i] == ' ',
        forall|i: int| 0 < i < s.len() && is_space(#[trigger] s[i]) ==> !is_space(s[i - 1]),
    ensures
        swept(s) == (if is_space(s.last()) {
            (s.drop_last(), true)
        } else {
            (s, false)
        }),
    decreases s.len(),
{
    let u = s.drop_last();
    if u.len() == 0 {
        assert(swept(u) == (Seq::<char>::empty(), false));
        assert(u.push(s.last()) =~= s);
    } else {
        assert forall|i: int| 0 <= i < u.len() && is_space(#[trigger] u[i]) implies u[i] == ' ' by {
            assert(is_space(s[i]));
        }
        assert forall|i: int| 0 < i < u.len() && is_space(#[trigger] u[i]) implies !is_space(
            u[i - 1],
        ) by {
            assert(is_space(s[i]));
        }
        tidy_prefix(u);
        assert(u.last() == s[s.len() - 2]);
        if is_space(s.last()) {
            assert(is_space(s[s.len() - 1]));
        } else if is_space(u.last()) {
            assert(is_space(s[s.len() - 2]));
            assert(u.drop_last().push(' ').push(s.last()) =~= s);
            assert(u.drop_last().len() > 0);
        } else {
            assert(u.push(s.last()) =~= s);
        }
    }
}

} // verus!
