//! Searching, splitting and joining text, over sequences of characters.
use vstd::prelude::*;

use crate::chars::{
    alnum, chars_of, is_alnum, is_space, lower, lower_string, space, string_of, to_lower,
};

verus! {

/// The characters of each string of a list.
pub open spec fn texts(v: Seq<String>) -> Seq<Seq<char>> {
    v.map_values(|s: String| s@)
}

pub broadcast proof fn texts_push(v: Seq<String>, s: String)
    ensures
        #[trigger] texts(v.push(s)) == texts(v).push(s@),
{
    assert(texts(v.push(s)) =~= texts(v).push(s@));
}

/// The characters of a text that may be missing.
pub open spec fn opt_text(o: Option<&str>) -> Option<Seq<char>> {
    match o {
        Some(s) => Some(s@),
        None => None,
    }
}

/// The characters of a string that may be missing.
pub open spec fn opt_string(o: Option<String>) -> Option<Seq<char>> {
    match o {
        Some(s) => Some(s@),
        None => None,
    }
}

/// `t` stands in `s` at `i`.
pub open spec fn at(s: Seq<char>, t: Seq<char>, i: int) -> bool {
    &&& 0 <= i
    &&& i + t.len() <= s.len()
    &&& s.subrange(i, i + t.len()) == t
}

/// `t` occurs in `s`.
pub open spec fn occurs(s: Seq<char>, t: Seq<char>) -> bool {
    exists|i: int| at(s, t, i)
}

pub open spec fn starts(s: Seq<char>, t: Seq<char>) -> bool {
    at(s, t, 0)
}

pub open spec fn ends(s: Seq<char>, t: Seq<char>) -> bool {
    at(s, t, s.len() - t.len())
}

/// Equal but for the case of ASCII letters.
pub open spec fn same_fold(a: Seq<char>, b: Seq<char>) -> bool {
    lower(a) == lower(b)
}

/// The first place at or after `i` where `t` stands in `s`.
pub open spec fn find_from(s: Seq<char>, t: Seq<char>, i: int) -> Option<int>
    decreases s.len() + 1 - i,
{
    if i < 0 || i + t.len() > s.len() {
        None
    } else if at(s, t, i) {
        Some(i)
    } else {
        find_from(s, t, i + 1)
    }
}

/// What stands before the first `t`, or all of `s`.
pub open spec fn before_first(s: Seq<char>, t: Seq<char>) -> Seq<char> {
    match find_from(s, t, 0) {
        Some(i) => s.take(i),
        None => s,
    }
}

/// What stands after the first `t`.
pub open spec fn after_first(s: Seq<char>, t: Seq<char>) -> Option<Seq<char>> {
    match find_from(s, t, 0) {
        Some(i) => Some(s.skip(i + t.len())),
        None => None,
    }
}

/// The last place at or before `i` where `t` stands in `s`.
pub open spec fn rfind_from(s: Seq<char>, t: Seq<char>, i: int) -> Option<int>
    decreases i + 1,
{
    if i < 0 {
        None
    } else if at(s, t, i) {
        Some(i)
    } else {
        rfind_from(s, t, i - 1)
    }
}

/// What stands after the last `t`, or all of `s`.
pub open spec fn after_last(s: Seq<char>, t: Seq<char>) -> Seq<char> {
    match rfind_from(s, t, s.len() - t.len()) {
        Some(i) => s.skip(i + t.len()),
        None => s,
    }
}

/// What lies between the separators: reading from the left, each `c` closes a
/// piece and opens the next.
pub open spec fn pieces(s: Seq<char>, c: char) -> Seq<Seq<char>>
    decreases s.len(),
{
    if s.len() == 0 {
        seq![Seq::empty()]
    } else {
        let p = pieces(s.drop_last(), c);
        if s.last() == c {
            p.push(Seq::empty())
        } else {
            p.drop_last().push(p.last().push(s.last()))
        }
    }
}

/// What lies between white space, empty where two of it meet.
pub open spec fn gaps(s: Seq<char>) -> Seq<Seq<char>>
    decreases s.len(),
{
    if s.len() == 0 {
        seq![Seq::empty()]
    } else {
        let p = gaps(s.drop_last());
        if is_space(s.last()) {
            p.push(Seq::empty())
        } else {
            p.drop_last().push(p.last().push(s.last()))
        }
    }
}

/// The words of a text: what lies between white space, and is not empty.
pub open spec fn words(s: Seq<char>) -> Seq<Seq<char>> {
    gaps(s).filter(|w: Seq<char>| w.len() > 0)
}

/// The first of the lines from `i` on that `p` holds of.
pub open spec fn first_from(
    ls: Seq<Seq<char>>,
    p: spec_fn(Seq<char>) -> bool,
    i: int,
) -> Option<Seq<char>>
    decreases ls.len() - i,
{
    if i < 0 || i >= ls.len() {
        None
    } else if p(ls[i]) {
        Some(ls[i])
    } else {
        first_from(ls, p, i + 1)
    }
}

/// The last of the first `n` lines that `p` holds of.
pub open spec fn last_before(
    ls: Seq<Seq<char>>,
    p: spec_fn(Seq<char>) -> bool,
    n: int,
) -> Option<Seq<char>>
    decreases n,
{
    if n <= 0 || n > ls.len() {
        None
    } else if p(ls[n - 1]) {
        Some(ls[n - 1])
    } else {
        last_before(ls, p, n - 1)
    }
}

/// The first line of a text that `p` holds of.
pub open spec fn first_line(s: Seq<char>, p: spec_fn(Seq<char>) -> bool) -> Option<Seq<char>> {
    first_from(lines(s), p, 0)
}

/// The last line of a text that `p` holds of.
pub open spec fn last_line(s: Seq<char>, p: spec_fn(Seq<char>) -> bool) -> Option<Seq<char>> {
    last_before(lines(s), p, lines(s).len() as int)
}

/// Those texts that hold `t`.
pub open spec fn holding(t: Seq<char>) -> spec_fn(Seq<char>) -> bool {
    |l: Seq<char>| occurs(l, t)
}

/// A line without the carriage return that ends it.
pub open spec fn strip_cr(s: Seq<char>) -> Seq<char> {
    if s.len() > 0 && s.last() == '\r' {
        s.drop_last()
    } else {
        s
    }
}

/// The lines of a text: each ends in a line feed, or in a carriage return and
/// a line feed; the last one may lack its ending.
pub open spec fn lines(s: Seq<char>) -> Seq<Seq<char>> {
    let p = pieces(s, '\n');
    let whole = p.drop_last().map_values(|l: Seq<char>| strip_cr(l));
    if p.last().len() == 0 {
        whole
    } else {
        whole.push(p.last())
    }
}

pub open spec fn trim_start(s: Seq<char>) -> Seq<char>
    decreases s.len(),
{
    if s.len() > 0 && is_space(s[0]) {
        trim_start(s.drop_first())
    } else {
        s
    }
}

pub open spec fn trim_end(s: Seq<char>) -> Seq<char>
    decreases s.len(),
{
    if s.len() > 0 && is_space(s.last()) {
        trim_end(s.drop_last())
    } else {
        s
    }
}

/// Without the white space at both ends.
pub open spec fn trim(s: Seq<char>) -> Seq<char> {
    trim_end(trim_start(s))
}

/// Without the run of `c` at the end.
pub open spec fn trim_end_char(s: Seq<char>, c: char) -> Seq<char>
    decreases s.len(),
{
    if s.len() > 0 && s.last() == c {
        trim_end_char(s.drop_last(), c)
    } else {
        s
    }
}

/// Without the run of `c` at the start.
pub open spec fn trim_start_char(s: Seq<char>, c: char) -> Seq<char>
    decreases s.len(),
{
    if s.len() > 0 && s[0] == c {
        trim_start_char(s.drop_first(), c)
    } else {
        s
    }
}

/// The parts in order with `sep` between them.
pub open spec fn join(ps: Seq<Seq<char>>, sep: Seq<char>) -> Seq<char>
    decreases ps.len(),
{
    if ps.len() == 0 {
        Seq::empty()
    } else if ps.len() == 1 {
        ps[0]
    } else {
        join(ps.drop_last(), sep) + sep + ps.last()
    }
}

/// Each line followed by a line feed.
pub open spec fn unlines(ls: Seq<Seq<char>>) -> Seq<char>
    decreases ls.len(),
{
    if ls.len() == 0 {
        Seq::empty()
    } else {
        unlines(ls.drop_last()) + ls.last().push('\n')
    }
}

/// Each `from` in `s`, found from the left, replaced by `to`.
pub open spec fn replace_text(s: Seq<char>, from: Seq<char>, to: Seq<char>) -> Seq<char>
    decreases s.len(),
{
    match find_from(s, from, 0) {
        Some(i) => if from.len() > 0 && 0 <= i && i + from.len() <= s.len() {
            s.take(i) + to + replace_text(s.skip(i + from.len()), from, to)
        } else {
            s
        },
        None => s,
    }
}

/// Without `t` at the end, where it ends in `t`.
pub open spec fn without_end(s: Seq<char>, t: Seq<char>) -> Seq<char> {
    if ends(s, t) {
        s.take(s.len() - t.len())
    } else {
        s
    }
}

/// Without each `t` at the end.
pub open spec fn without_ends(s: Seq<char>, t: Seq<char>) -> Seq<char>
    decreases s.len(),
{
    if t.len() > 0 && ends(s, t) {
        without_ends(s.take(s.len() - t.len()), t)
    } else {
        s
    }
}

/// The ASCII letters and digits of a text, in lower case.
pub open spec fn letters(s: Seq<char>) -> Seq<char> {
    lower(s.filter(|c: char| is_alnum(c)))
}

/// Each `c` of `s` replaced by `by`.
pub open spec fn replace_char(s: Seq<char>, c: char, by: Seq<char>) -> Seq<char>
    decreases s.len(),
{
    if s.len() == 0 {
        Seq::empty()
    } else {
        replace_char(s.drop_last(), c, by) + (if s.last() == c {
            by
        } else {
            seq![s.last()]
        })
    }
}

/// Equality of two texts.
pub fn str_eq(a: &str, b: &str) -> (r: bool)
    ensures
        r == (a@ == b@),
{
    let x = chars_of(a);
    let y = chars_of(b);
    if x.len() != y.len() {
        return false;
    }
    let mut i: usize = 0;
    while i < x.len()
        invariant
            x@ == a@,
            y@ == b@,
            x@.len() == y@.len(),
            i <= x@.len(),
            forall|j: int| 0 <= j < i ==> x@[j] == y@[j],
        decreases x@.len() - i,
    {
        if x[i] != y[i] {
            return false;
        }
        i += 1;
    }
    assert(a@ =~= b@);
    true
}

/// Does `t` stand in `s` at `i`?
pub fn stands_at(s: &[char], t: &[char], i: usize) -> (r: bool)
    ensures
        r == at(s@, t@, i as int),
{
    if t.len() > s.len() || i > s.len() - t.len() {
        return false;
    }
    let n: usize = s.len();
    let mut j: usize = 0;
    while j < t.len()
        invariant
            j <= t@.len(),
            i + t@.len() <= s@.len(),
            s@.len() == n,
            forall|k: int| 0 <= k < j ==> s@[i + k] == t@[k],
        decreases t@.len() - j,
    {
        if s[i + j] != t[j] {
            assert(s@.subrange(i as int, i + t@.len())[j as int] != t@[j as int]);
            return false;
        }
        j += 1;
    }
    assert(s@.subrange(i as int, i + t@.len()) =~= t@);
    true
}

/// The first place from `from` on where `t` stands in `s`.
pub fn find_at(s: &[char], t: &[char], from: usize) -> (r: Option<usize>)
    requires
        from <= s@.len(),
    ensures
        match r {
            Some(i) => find_from(s@, t@, from as int) == Some(i as int),
            None => find_from(s@, t@, from as int) is None,
        },
{
    if t.len() > s.len() {
        return None;
    }
    let last: usize = s.len() - t.len();
    let mut i: usize = from;
    while i < last
        invariant
            from <= i <= s@.len(),
            last + t@.len() == s@.len(),
            find_from(s@, t@, from as int) == find_from(s@, t@, i as int),
        decreases last - i,
    {
        if stands_at(s, t, i) {
            return Some(i);
        }
        i += 1;
    }
    if i == last && stands_at(s, t, i) {
        return Some(i);
    }
    assert(find_from(s@, t@, i + 1) is None);
    None
}

/// What `find_from` finds is an occurrence, and the first one.
pub proof fn find_from_first(s: Seq<char>, t: Seq<char>, i: int)
    requires
        0 <= i,
    ensures
        find_from(s, t, i) matches Some(k) ==> i <= k && at(s, t, k) && forall|j: int|
            i <= j < k ==> !#[trigger] at(s, t, j),
        find_from(s, t, i) is None ==> forall|j: int| i <= j ==> !#[trigger] at(s, t, j),
    decreases s.len() + 1 - i,
{
    if i + t.len() <= s.len() && !at(s, t, i) {
        find_from_first(s, t, i + 1);
    }
}

pub fn contains_chars(s: &[char], t: &[char]) -> (r: bool)
    ensures
        r == occurs(s@, t@),
{
    let r = find_at(s, t, 0);
    proof {
        find_from_first(s@, t@, 0);
    }
    r.is_some()
}

/// Does `t` occur in `s`?
pub fn contains(s: &str, t: &str) -> (r: bool)
    ensures
        r == occurs(s@, t@),
{
    contains_chars(chars_of(s).as_slice(), chars_of(t).as_slice())
}

pub fn starts_with(s: &str, t: &str) -> (r: bool)
    ensures
        r == starts(s@, t@),
{
    stands_at(chars_of(s).as_slice(), chars_of(t).as_slice(), 0)
}

pub fn ends_with(s: &str, t: &str) -> (r: bool)
    ensures
        r == ends(s@, t@),
{
    let x = chars_of(s);
    let y = chars_of(t);
    if y.len() > x.len() {
        return false;
    }
    stands_at(x.as_slice(), y.as_slice(), x.len() - y.len())
}

pub fn cut_end(s: &str, t: &str) -> (r: String)
    ensures
        r@ == without_end(s@, t@),
{
    let x = chars_of(s);
    let y = chars_of(t);
    if ends_with(s, t) {
        let r = string_of(x.as_slice(), 0, x.len() - y.len());
        assert(r@ =~= s@.take(s@.len() - t@.len()));
        r
    } else {
        s.to_owned()
    }
}

pub fn replaced_text(s: &str, from: &str, to: &str) -> (r: String)
    requires
        from@.len() > 0,
    ensures
        r@ == replace_text(s@, from@, to@),
{
    let x = chars_of(s);
    let f = chars_of(from);
    let n: usize = x.len();
    let mut out = String::new();
    let mut start: usize = 0;
    assert(s@.skip(0) =~= s@);
    assert(out@ + replace_text(s@, from@, to@) =~= replace_text(s@, from@, to@));
    loop
        invariant
            x@ == s@,
            f@ == from@,
            n == x@.len(),
            from@.len() > 0,
            start <= n,
            out@ + replace_text(s@.skip(start as int), from@, to@) == replace_text(s@, from@, to@),
        decreases n - start,
    {
        let rest = string_of(x.as_slice(), start, n);
        assert(rest@ =~= s@.skip(start as int));
        let y = chars_of(rest.as_str());
        proof {
            find_from_first(rest@, from@, 0);
        }
        match find_at(y.as_slice(), f.as_slice(), 0) {
            Some(i) => {
                let ghost before = out@;
                let head = string_of(y.as_slice(), 0, i);
                out.append(head.as_str());
                out.append(to);
                start = start + i + f.len();
                proof {
                    let tail = replace_text(s@.skip(start as int), from@, to@);
                    assert(rest@.skip(i + from@.len()) =~= s@.skip(start as int));
                    assert(head@ =~= rest@.take(i as int));
                    assert(out@ + tail =~= before + (rest@.take(i as int) + to@ + tail));
                }
            },
            None => {
                out.append(rest.as_str());
                return out;
            },
        }
    }
}

pub fn cut_ends(s: &str, t: &str) -> (r: String)
    ensures
        r@ == without_ends(s@, t@),
{
    let mut out = s.to_owned();
    if t.is_empty() {
        return out;
    }
    while ends_with(out.as_str(), t)
        invariant
            t@.len() > 0,
            without_ends(s@, t@) == without_ends(out@, t@),
        decreases out@.len(),
    {
        out = cut_end(out.as_str(), t);
    }
    out
}

pub fn letters_of(s: &str) -> (r: String)
    ensures
        r@ == letters(s@),
{
    let x = chars_of(s);
    let ghost keep = |c: char| is_alnum(c);
    let mut out = String::new();
    let mut i: usize = 0;
    proof {
        reveal(Seq::filter);
    }
    assert(out@ =~= lower(s@.take(0).filter(keep)));
    while i < x.len()
        invariant
            x@ == s@,
            i <= x@.len(),
            keep == |c: char| is_alnum(c),
            out@ == lower(s@.take(i as int).filter(keep)),
        decreases x@.len() - i,
    {
        proof {
            reveal(Seq::filter);
        }
        assert(s@.take(i + 1).drop_last() =~= s@.take(i as int));
        if alnum(x[i]) {
            let ghost before = s@.take(i as int).filter(keep);
            out.push(to_lower(x[i]));
            assert(out@ =~= lower(before.push(x@[i as int])));
        }
        i += 1;
    }
    assert(s@.take(i as int) =~= s@);
    out
}

pub fn eq_fold(a: &str, b: &str) -> (r: bool)
    ensures
        r == same_fold(a@, b@),
{
    str_eq(lower_string(a).as_str(), lower_string(b).as_str())
}

pub fn cut_before_first(s: &str, t: &str) -> (r: String)
    ensures
        r@ == before_first(s@, t@),
{
    let x = chars_of(s);
    let y = chars_of(t);
    proof {
        find_from_first(s@, t@, 0);
    }
    match find_at(x.as_slice(), y.as_slice(), 0) {
        Some(i) => {
            let r = string_of(x.as_slice(), 0, i);
            assert(r@ =~= s@.take(i as int));
            r
        },
        None => {
            let r = string_of(x.as_slice(), 0, x.len());
            assert(r@ =~= s@);
            r
        },
    }
}

pub fn cut_after_first(s: &str, t: &str) -> (r: Option<String>)
    ensures
        match r {
            Some(x) => after_first(s@, t@) == Some(x@),
            None => after_first(s@, t@) is None,
        },
{
    let x = chars_of(s);
    let y = chars_of(t);
    proof {
        find_from_first(s@, t@, 0);
    }
    match find_at(x.as_slice(), y.as_slice(), 0) {
        Some(i) => {
            let n: usize = x.len();
            let r = string_of(x.as_slice(), i + y.len(), n);
            assert(r@ =~= s@.skip(i + t@.len()));
            Some(r)
        },
        None => None,
    }
}

/// What stands before and after the first `c`.
pub fn split_once(s: &str, t: &str) -> (r: Option<(String, String)>)
    ensures
        match r {
            Some((a, b)) => after_first(s@, t@) == Some(b@) && a@ == before_first(s@, t@),
            None => after_first(s@, t@) is None,
        },
{
    match cut_after_first(s, t) {
        Some(b) => Some((cut_before_first(s, t), b)),
        None => None,
    }
}

pub fn cut_after_last(s: &str, t: &str) -> (r: String)
    ensures
        r@ == after_last(s@, t@),
{
    let x = chars_of(s);
    let y = chars_of(t);
    if y.len() > x.len() {
        let r = string_of(x.as_slice(), 0, x.len());
        assert(r@ =~= s@);
        return r;
    }
    let len: usize = x.len();
    let mut n: usize = len - y.len();
    while n > 0
        invariant
            x@ == s@,
            y@ == t@,
            len == x@.len(),
            y@.len() <= x@.len(),
            n <= x@.len() - y@.len(),
            rfind_from(s@, t@, s@.len() - t@.len()) == rfind_from(s@, t@, n as int),
        decreases n,
    {
        if stands_at(x.as_slice(), y.as_slice(), n) {
            let r = string_of(x.as_slice(), n + y.len(), len);
            assert(r@ =~= s@.skip(n + t@.len()));
            return r;
        }
        n -= 1;
    }
    if stands_at(x.as_slice(), y.as_slice(), 0) {
        let r = string_of(x.as_slice(), y.len(), len);
        assert(r@ =~= s@.skip(t@.len() as int));
        return r;
    }
    assert(rfind_from(s@, t@, -1) is None);
    let r = string_of(x.as_slice(), 0, x.len());
    assert(r@ =~= s@);
    r
}

pub fn split_char(s: &str, c: char) -> (r: Vec<String>)
    ensures
        texts(r@) == pieces(s@, c),
        r@.len() > 0,
{
    let x = chars_of(s);
    let mut out: Vec<String> = Vec::new();
    let mut cur = String::new();
    let mut i: usize = 0;
    assert(texts(out@).push(cur@) =~= pieces(s@.take(0), c));
    while i < x.len()
        invariant
            x@ == s@,
            i <= x@.len(),
            texts(out@).push(cur@) == pieces(s@.take(i as int), c),
        decreases x@.len() - i,
    {
        broadcast use texts_push;

        assert(s@.take(i + 1).drop_last() =~= s@.take(i as int));
        let ghost p = pieces(s@.take(i as int), c);
        assert(p.last() == cur@ && p.drop_last() =~= texts(out@));
        if x[i] == c {
            out.push(cur);
            cur = String::new();
        } else {
            cur.push(x[i]);
        }
        i += 1;
    }
    assert(s@.take(i as int) =~= s@);
    broadcast use texts_push;

    out.push(cur);
    out
}

/// The lines of a text.
pub fn lines_of(s: &str) -> (r: Vec<String>)
    ensures
        texts(r@) == lines(s@),
{
    let ps = split_char(s, '\n');
    let mut out: Vec<String> = Vec::new();
    let mut i: usize = 0;
    let ghost p = pieces(s@, '\n');
    assert(forall|k: int| 0 <= k < ps@.len() ==> p[k] == #[trigger] ps@[k]@);
    assert(texts(out@) =~= p.take(0).map_values(|l: Seq<char>| strip_cr(l)));
    let n: usize = ps.len();
    while i < n - 1
        invariant
            n == ps@.len(),
            p == texts(ps@),
            p.len() == ps@.len(),
            i + 1 <= ps@.len(),
            forall|k: int| 0 <= k < ps@.len() ==> p[k] == #[trigger] ps@[k]@,
            texts(out@) == p.take(i as int).map_values(|l: Seq<char>| strip_cr(l)),
        decreases ps@.len() - i,
    {
        broadcast use texts_push;

        let l = chars_of(ps[i].as_str());
        let line = if l.len() > 0 && l[l.len() - 1] == '\r' {
            string_of(l.as_slice(), 0, l.len() - 1)
        } else {
            string_of(l.as_slice(), 0, l.len())
        };
        assert(line@ =~= strip_cr(p[i as int]));
        out.push(line);
        i += 1;
        assert(p.take(i as int).map_values(|l: Seq<char>| strip_cr(l)) =~= p.take(i - 1).map_values(
            |l: Seq<char>| strip_cr(l),
        ).push(strip_cr(p[i - 1])));
    }
    broadcast use texts_push;

    assert(p.take(i as int) =~= p.drop_last());
    let last = ps[ps.len() - 1].clone();
    if !last.as_str().is_empty() {
        out.push(last);
    }
    out
}

pub fn trimmed(s: &str) -> (r: String)
    ensures
        r@ == trim(s@),
{
    let x = chars_of(s);
    let mut a: usize = 0;
    assert(s@.skip(0) =~= s@);
    while a < x.len() && space(x[a])
        invariant
            x@ == s@,
            a <= x@.len(),
            trim_start(s@) == trim_start(s@.skip(a as int)),
        decreases x@.len() - a,
    {
        assert(s@.skip(a as int).drop_first() =~= s@.skip(a + 1));
        a += 1;
    }
    let ghost t = s@.skip(a as int);
    assert(trim_start(s@) == t);
    let mut b: usize = x.len();
    assert(t.take((b - a) as int) =~= t);
    while a < b && space(x[b - 1])
        invariant
            x@ == s@,
            a <= b <= x@.len(),
            t == s@.skip(a as int),
            trim_end(t) == trim_end(t.take((b - a) as int)),
        decreases b,
    {
        assert(t.take((b - a) as int).drop_last() =~= t.take((b - a) - 1));
        b -= 1;
    }
    let r = string_of(x.as_slice(), a, b);
    assert(r@ =~= t.take((b - a) as int));
    r
}

pub fn strip_end_char(s: &str, c: char) -> (r: String)
    ensures
        r@ == trim_end_char(s@, c),
{
    let x = chars_of(s);
    let mut b: usize = x.len();
    assert(s@.take(b as int) =~= s@);
    while 0 < b && x[b - 1] == c
        invariant
            x@ == s@,
            b <= x@.len(),
            trim_end_char(s@, c) == trim_end_char(s@.take(b as int), c),
        decreases b,
    {
        assert(s@.take(b as int).drop_last() =~= s@.take(b - 1));
        b -= 1;
    }
    let r = string_of(x.as_slice(), 0, b);
    assert(r@ =~= s@.take(b as int));
    r
}

pub fn strip_start_char(s: &str, c: char) -> (r: String)
    ensures
        r@ == trim_start_char(s@, c),
{
    let x = chars_of(s);
    let mut a: usize = 0;
    assert(s@.skip(0) =~= s@);
    while a < x.len() && x[a] == c
        invariant
            x@ == s@,
            a <= x@.len(),
            trim_start_char(s@, c) == trim_start_char(s@.skip(a as int), c),
        decreases x@.len() - a,
    {
        assert(s@.skip(a as int).drop_first() =~= s@.skip(a + 1));
        a += 1;
    }
    let r = string_of(x.as_slice(), a, x.len());
    assert(r@ =~= s@.skip(a as int));
    r
}

/// The strings in order with `sep` between them.
pub fn join_with(v: &[String], sep: &str) -> (r: String)
    ensures
        r@ == join(texts(v@), sep@),
{
    let mut out = String::new();
    let mut i: usize = 0;
    while i < v.len()
        invariant
            i <= v@.len(),
            out@ == join(texts(v@).take(i as int), sep@),
        decreases v@.len() - i,
    {
        let ghost before = texts(v@).take(i as int);
        assert(texts(v@).take(i + 1).drop_last() =~= before);
        if i > 0 {
            out.append(sep);
        }
        out.append(v[i].as_str());
        i += 1;
        assert(texts(v@).take(i as int).last() == v@[i - 1]@);
        assert(out@ =~= join(texts(v@).take(i as int), sep@));
    }
    assert(texts(v@).take(i as int) =~= texts(v@));
    out
}

pub fn replaced(s: &str, c: char, by: &str) -> (r: String)
    ensures
        r@ == replace_char(s@, c, by@),
{
    let x = chars_of(s);
    let mut out = String::new();
    let mut i: usize = 0;
    while i < x.len()
        invariant
            x@ == s@,
            i <= x@.len(),
            out@ == replace_char(s@.take(i as int), c, by@),
        decreases x@.len() - i,
    {
        assert(s@.take(i + 1).drop_last() =~= s@.take(i as int));
        let ghost before = out@;
        if x[i] == c {
            out.append(by);
        } else {
            out.push(x[i]);
            assert(out@ =~= before + seq![x@[i as int]]);
        }
        i += 1;
    }
    assert(s@.take(i as int) =~= s@);
    out
}

/// One text after the other.
pub fn cat(a: &str, b: &str) -> (r: String)
    ensures
        r@ == a@ + b@,
{
    let mut out = a.to_owned();
    out.append(b);
    out
}

/// The strings that `f` keeps, in their order.
pub(crate) fn keep_strings<F: Fn(&String) -> bool>(
    list: &[String],
    f: F,
    Ghost(keep): Ghost<spec_fn(Seq<char>) -> bool>,
) -> (r: Vec<String>)
    requires
        forall|s: &String| call_requires(f, (s,)),
        forall|s: &String, b: bool| call_ensures(f, (s,), b) ==> b == keep(s@),
    ensures
        texts(r@) == texts(list@).filter(keep),
{
    let mut out: Vec<String> = Vec::new();
    let mut i: usize = 0;
    proof {
        reveal(Seq::filter);
    }
    assert(texts(out@) =~= texts(list@).take(0).filter(keep));
    while i < list.len()
        invariant
            i <= list@.len(),
            forall|s: &String| call_requires(f, (s,)),
            forall|s: &String, b: bool| call_ensures(f, (s,), b) ==> b == keep(s@),
            texts(out@) == texts(list@).take(i as int).filter(keep),
        decreases list@.len() - i,
    {
        broadcast use texts_push;

        proof {
            reveal(Seq::filter);
        }
        assert(texts(list@).take(i + 1).drop_last() =~= texts(list@).take(i as int));
        assert(texts(list@)[i as int] == list@[i as int]@);
        if f(&list[i]) {
            out.push(list[i].clone());
        }
        i += 1;
    }
    assert(texts(list@).take(i as int) =~= texts(list@));
    out
}

/// Is one of the strings equal to `s`?
pub fn list_has(v: &[String], s: &str) -> (r: bool)
    ensures
        r == texts(v@).contains(s@),
{
    let mut i: usize = 0;
    while i < v.len()
        invariant
            i <= v@.len(),
            forall|j: int| 0 <= j < i ==> #[trigger] v@[j]@ != s@,
        decreases v@.len() - i,
    {
        if str_eq(v[i].as_str(), s) {
            assert(texts(v@)[i as int] == s@);
            return true;
        }
        i += 1;
    }
    assert forall|j: int| 0 <= j < texts(v@).len() implies texts(v@)[j] != s@ by {
        assert(v@[j]@ != s@);
    }
    false
}

/// The words of a text.
pub fn split_words(s: &str) -> (r: Vec<String>)
    ensures
        texts(r@) == words(s@),
{
    let x = chars_of(s);
    let mut out: Vec<String> = Vec::new();
    let mut cur = String::new();
    let mut i: usize = 0;
    assert(texts(out@).push(cur@) =~= gaps(s@.take(0)));
    while i < x.len()
        invariant
            x@ == s@,
            i <= x@.len(),
            texts(out@).push(cur@) == gaps(s@.take(i as int)),
        decreases x@.len() - i,
    {
        broadcast use texts_push;

        assert(s@.take(i + 1).drop_last() =~= s@.take(i as int));
        let ghost p = gaps(s@.take(i as int));
        assert(p.last() == cur@ && p.drop_last() =~= texts(out@));
        if space(x[i]) {
            out.push(cur);
            cur = String::new();
        } else {
            cur.push(x[i]);
        }
        i += 1;
    }
    assert(s@.take(i as int) =~= s@);
    broadcast use texts_push;

    out.push(cur);
    let ghost keep = |w: Seq<char>| w.len() > 0;
    let full = |w: &String| -> (b: bool)
        ensures
            b == (w@.len() > 0),
        {
            !w.as_str().is_empty()
        };
    keep_strings(out.as_slice(), full, Ghost(keep))
}

/// The first line of a text that `f` holds of.
pub(crate) fn find_line<F: Fn(&str) -> bool>(
    text: &str,
    f: F,
    Ghost(p): Ghost<spec_fn(Seq<char>) -> bool>,
) -> (r: Option<String>)
    requires
        forall|s: &str| call_requires(f, (s,)),
        forall|s: &str, b: bool| call_ensures(f, (s,), b) ==> b == p(s@),
    ensures
        opt_string(r) == first_line(text@, p),
{
    let ls = lines_of(text);
    let mut i: usize = 0;
    while i < ls.len()
        invariant
            forall|s: &str| call_requires(f, (s,)),
            forall|s: &str, b: bool| call_ensures(f, (s,), b) ==> b == p(s@),
            texts(ls@) == lines(text@),
            i <= ls@.len(),
            first_line(text@, p) == first_from(lines(text@), p, i as int),
        decreases ls@.len() - i,
    {
        assert(lines(text@)[i as int] == ls@[i as int]@);
        if f(ls[i].as_str()) {
            return Some(ls[i].clone());
        }
        i += 1;
    }
    assert(lines(text@).len() == ls@.len());
    None
}

/// The last line of a text that holds `t`.
pub fn last_line_with(text: &str, t: &str) -> (r: Option<String>)
    ensures
        opt_string(r) == last_line(text@, holding(t@)),
{
    let ghost p = holding(t@);
    let ls = lines_of(text);
    let mut n: usize = ls.len();
    assert(lines(text@).len() == ls@.len());
    while n > 0
        invariant
            texts(ls@) == lines(text@),
            n <= ls@.len(),
            p == holding(t@),
            last_line(text@, p) == last_before(lines(text@), p, n as int),
        decreases n,
    {
        assert(lines(text@)[n - 1] == ls@[n - 1]@);
        if contains(ls[n - 1].as_str(), t) {
            return Some(ls[n - 1].clone());
        }
        n -= 1;
    }
    None
}

} // verus!
