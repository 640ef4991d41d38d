//! What a written .ini file reads back as.
use vstd::prelude::*;

use crate::chars::{is_space, lower, lower_char};
use crate::ini_laws::{
    entry_from_first, law_define, law_set_keeps_others, law_set_then_get, law_techniques_enabled,
    section_from_first,
};
use crate::reshade_ini::{
    define_name, dump_lines, dumped, entry_from, entry_line, entry_lines, escaped, heading,
    is_blank, is_heading, is_ours, item, items, items_from, listed, loaded, opened, or_empty,
    parsed, preset_settings, read_line, read_lines, reshade_settings, root, rooted, section_from,
    value_of, with_default, with_define, with_entry, with_heading, with_techniques, with_value,
    Entry, Section, FEED_TECHNIQUE, MV_PROVIDER_DEFINE, PROVIDER_TECHNIQUE,
};
use crate::str_laws::{
    is_line, lines_clean, lines_of_unlines, split_char_once, tight, trim_keeps_ends, trim_shape,
    trim_tight, trim_within,
};
use crate::strs::{after_first, before_first, join, lines, same_fold, trim};

verus! {

/// No white space at the end.
pub open spec fn ends_tight(s: Seq<char>) -> bool {
    s.len() == 0 || !is_space(s.last())
}

/// An entry that its line gives back, but for white space before the value.
pub open spec fn writable_entry(e: Entry) -> bool {
    &&& tight(e.0)
    &&& ends_tight(e.1)
    &&& !e.0.contains('\n')
    &&& !e.1.contains('\n')
    &&& !e.0.contains('=')
    &&& !is_blank(entry_line(e))
    &&& !is_heading(entry_line(e))
}

pub open spec fn writable_entries(kv: Seq<Entry>) -> bool {
    forall|k: int| 0 <= k < kv.len() ==> writable_entry(#[trigger] kv[k])
}

/// Sections that their text gives back, but for white space before the values:
/// the first and no other is nameless, no two share a name, and each entry is
/// one that its line gives back.
pub open spec fn writable(m: Seq<Section>) -> bool {
    &&& rooted(m)
    &&& forall|i: int| 0 <= i < m.len() ==> !(#[trigger] m[i]).0.contains('\n')
    &&& forall|i: int| 0 < i < m.len() ==> (#[trigger] m[i]).0.len() > 0
    &&& forall|i: int, j: int|
        0 <= i < j < m.len() ==> !same_fold((#[trigger] m[i]).0, (#[trigger] m[j]).0)
    &&& forall|i: int| 0 <= i < m.len() ==> writable_entries((#[trigger] m[i]).1)
}

pub open spec fn tidy_entries(kv: Seq<Entry>) -> bool {
    forall|k: int| 0 <= k < kv.len() ==> tight((#[trigger] kv[k]).1)
}

/// No value has white space at an end.
pub open spec fn tidy_values(m: Seq<Section>) -> bool {
    forall|i: int| 0 <= i < m.len() ==> tidy_entries((#[trigger] m[i]).1)
}

pub open spec fn trimmed_entries(kv: Seq<Entry>) -> Seq<Entry> {
    kv.map_values(|e: Entry| (e.0, trim(e.1)))
}

/// The sections with the white space around each value gone.
pub open spec fn trimmed_values(m: Seq<Section>) -> Seq<Section> {
    m.map_values(|s: Section| (s.0, trimmed_entries(s.1)))
}

proof fn trimmed_tidy(m: Seq<Section>)
    requires
        tidy_values(m),
    ensures
        trimmed_values(m) == m,
{
    let w = trimmed_values(m);
    assert forall|i: int| 0 <= i < m.len() implies w[i] == m[i] by {
        assert(tidy_entries(m[i].1));
        let kv = m[i].1;
        assert forall|k: int| 0 <= k < kv.len() implies trimmed_entries(kv)[k] == kv[k] by {
            assert(tight(kv[k].1));
            trim_tight(kv[k].1);
        }
        assert(trimmed_entries(kv) =~= kv);
    }
    assert(w =~= m);
}

proof fn entry_line_shape(e: Entry)
    ensures
        entry_line(e) == e.0.push('=') + e.1,
{
    reveal_strlit("=");
    assert(entry_line(e) =~= e.0.push('=') + e.1);
}

proof fn entry_line_read(st: (Seq<Section>, int), e: Entry)
    requires
        writable_entry(e),
        0 <= st.1 < st.0.len(),
    ensures
        read_line(st, entry_line(e)) == (
            st.0.update(st.1, (st.0[st.1].0, st.0[st.1].1.push((e.0, trim(e.1))))),
            st.1,
        ),
        is_line(entry_line(e)),
{
    reveal_strlit("=");
    let l = entry_line(e);
    entry_line_shape(e);
    assert("="@ =~= seq!['=']);
    assert(l[e.0.len() as int] == '=');
    assert(!is_space('='));
    if e.0.len() > 0 {
        assert(l[0] == e.0[0]);
    }
    if e.1.len() > 0 {
        assert(l.last() == e.1.last());
    }
    assert(tight(l));
    trim_tight(l);
    split_char_once(l, '=');
    let a = before_first(l, "="@);
    // The first '=' is the one that the line puts between key and value.
    assert(l.contains('='));
    let b = after_first(l, "="@)->0;
    assert(l == a.push('=') + b);
    assert(a.len() == e.0.len()) by {
        if a.len() < e.0.len() {
            assert(l[a.len() as int] == '=');
            assert(e.0[a.len() as int] == '=');
        }
        if a.len() > e.0.len() {
            assert(a[e.0.len() as int] == l[e.0.len() as int]);
        }
    }
    assert(a =~= e.0) by {
        assert forall|i: int| 0 <= i < a.len() implies a[i] == e.0[i] by {
            assert(a[i] == l[i]);
        }
    }
    assert(b =~= e.1) by {
        assert forall|i: int| 0 <= i < b.len() implies b[i] == e.1[i] by {
            assert(b[i] == l[a.len() + 1 + i]);
        }
    }
    trim_tight(e.0);
    assert forall|i: int| 0 <= i < l.len() implies l[i] != '\n' by {
        if i < e.0.len() {
            assert(l[i] == e.0[i]);
        } else if i > e.0.len() {
            assert(l[i] == e.1[i - e.0.len() - 1]);
        }
    }
    assert(is_space('\r'));
}

proof fn heading_shape(name: Seq<char>)
    ensures
        heading(name) == seq!['['] + name + seq![']'],
{
    reveal_strlit("[");
    reveal_strlit("]");
    assert(heading(name) =~= seq!['['] + name + seq![']']);
}

proof fn heading_read(st: (Seq<Section>, int), name: Seq<char>)
    requires
        !name.contains('\n'),
    ensures
        read_line(st, heading(name)) == opened(st.0, name),
        is_line(heading(name)),
{
    heading_shape(name);
    let l = heading(name);
    assert(!is_space('[') && !is_space(']'));
    assert(l[0] == '[' && l.last() == ']');
    trim_tight(l);
    assert(l.subrange(1, l.len() - 1) =~= name);
    assert forall|i: int| 0 <= i < l.len() implies l[i] != '\n' by {
        if 0 < i < l.len() - 1 {
            assert(l[i] == name[i - 1]);
        }
    }
}

proof fn read_entries(h: Seq<Seq<char>>, kv: Seq<Entry>)
    requires
        0 <= read_lines(h).1 < read_lines(h).0.len(),
        writable_entries(kv),
    ensures
        ({
            let st = read_lines(h);
            read_lines(h + entry_lines(kv)) == (
                st.0.update(st.1, (st.0[st.1].0, st.0[st.1].1 + trimmed_entries(kv))),
                st.1,
            )
        }),
    decreases kv.len(),
{
    let st = read_lines(h);
    if kv.len() == 0 {
        assert(h + entry_lines(kv) =~= h);
        assert(st.0[st.1].1 + trimmed_entries(kv) =~= st.0[st.1].1);
        assert(st.0.update(st.1, (st.0[st.1].0, st.0[st.1].1 + trimmed_entries(kv))) =~= st.0);
    } else {
        let u = kv.drop_last();
        let e = kv.last();
        assert(writable_entry(kv[kv.len() - 1]));
        assert forall|k: int| 0 <= k < u.len() implies writable_entry(#[trigger] u[k]) by {
            assert(writable_entry(kv[k]));
        }
        read_entries(h, u);
        let all = h + entry_lines(kv);
        assert(all.drop_last() =~= h + entry_lines(u));
        assert(all.last() == entry_line(e));
        let s2 = read_lines(h + entry_lines(u));
        entry_line_read(s2, e);
        let x = (e.0, trim(e.1));
        assert((st.0[st.1].1 + trimmed_entries(u)).push(x) =~= st.0[st.1].1 + trimmed_entries(kv));
        assert(s2.0.update(s2.1, (s2.0[s2.1].0, s2.0[s2.1].1.push(x))) =~= st.0.update(
            st.1,
            (st.0[st.1].0, st.0[st.1].1 + trimmed_entries(kv)),
        ));
    }
}

proof fn writable_prefix(m: Seq<Section>)
    requires
        writable(m),
        m.len() > 1,
    ensures
        writable(m.drop_last()),
{
    let u = m.drop_last();
    assert(u[0] == m[0]);
    assert forall|i: int| 0 <= i < u.len() implies u[i] == #[trigger] m[i] by {}
    assert forall|i: int| 0 <= i < u.len() implies !(#[trigger] u[i]).0.contains('\n') by {
        assert(!m[i].0.contains('\n'));
    }
    assert forall|i: int, j: int| 0 <= i < j < u.len() implies !same_fold(
        (#[trigger] u[i]).0,
        (#[trigger] u[j]).0,
    ) by {
        assert(u[i] == m[i] && u[j] == m[j]);
    }
    assert forall|i: int| 0 <= i < u.len() implies writable_entries((#[trigger] u[i]).1) by {
        assert(writable_entries(m[i].1));
    }
}

proof fn not_found(m: Seq<Section>, name: Seq<char>)
    requires
        forall|j: int| 0 <= j < m.len() ==> !same_fold((#[trigger] m[j]).0, name),
    ensures
        section_from(m, name, 0) is None,
{
    section_from_first(m, name, 0);
}

/// Reading the lines of some sections opens them one by one.
proof fn read_dump(m: Seq<Section>)
    requires
        writable(m),
    ensures
        read_lines(dump_lines(m)) == (trimmed_values(m), m.len() - 1),
    decreases m.len(),
{
    let u = m.drop_last();
    let (name, kv) = m.last();
    let d = dump_lines(u);
    let h = with_heading(d, name);
    let last = m.len() - 1;
    assert(m[last] == m.last());
    assert(!m[last].0.contains('\n') && writable_entries(m[last].1));
    let none = Seq::<Entry>::empty();
    let t = trimmed_entries(kv);
    assert(none + t =~= t);
    if last == 0 {
        assert(d =~= Seq::empty());
        assert(name =~= Seq::<char>::empty());
        assert(h =~= Seq::empty());
        read_entries(h, kv);
        assert(seq![root()].update(0, (name, t)) =~= trimmed_values(m));
    } else {
        writable_prefix(m);
        read_dump(u);
        let r = trimmed_values(u);
        assert forall|j: int| 0 <= j < r.len() implies !same_fold((#[trigger] r[j]).0, name) by {
            assert(r[j].0 == m[j].0);
            assert(!same_fold(m[j].0, m[last].0));
        }
        not_found(r, name);
        let st = read_lines(d);
        if d.len() > 0 {
            let e = d.push(Seq::empty());
            assert(e.drop_last() =~= d);
            assert(e.push(heading(name)).drop_last() =~= e);
            assert(trim(Seq::<char>::empty()).len() == 0) by {
                trim_tight(Seq::<char>::empty());
            }
            assert(read_lines(e) == st);
        } else {
            assert(d.push(heading(name)).drop_last() =~= d);
        }
        heading_read(st, name);
        assert(read_lines(h) == (r.push((name, none)), r.len() as int));
        read_entries(h, kv);
        assert(r.push((name, none)).update(r.len() as int, (name, t)) =~= r.push((name, t)));
        assert(trimmed_values(m) =~= r.push((name, t)));
    }
}

proof fn dump_lines_are_lines(m: Seq<Section>)
    requires
        writable(m),
    ensures
        forall|i: int| 0 <= i < dump_lines(m).len() ==> is_line(#[trigger] dump_lines(m)[i]),
    decreases m.len(),
{
    let u = m.drop_last();
    let (name, kv) = m.last();
    if m.len() > 1 {
        writable_prefix(m);
        dump_lines_are_lines(u);
    }
    let d = dump_lines(u);
    let h = with_heading(d, name);
    let w = dump_lines(m);
    assert(m[m.len() - 1] == m.last());
    heading_read((seq![root()], 0), name);
    assert forall|i: int| 0 <= i < w.len() implies is_line(#[trigger] w[i]) by {
        if i < d.len() {
            assert(w[i] == d[i]);
        } else if i >= h.len() {
            let k = i - h.len();
            assert(w[i] == entry_line(kv[k]));
            assert(writable_entry(kv[k]));
            entry_line_read((seq![root()], 0), kv[k]);
        } else {
            assert(w[i] == heading(name) || w[i].len() == 0);
        }
    }
}

/// Reading what was written gives the sections back, each value without the
/// white space around it; where no value has any, nothing changes.
pub proof fn law_parse_of_dump(m: Seq<Section>)
    requires
        writable(m),
    ensures
        parsed(dumped(m)) == trimmed_values(m),
        tidy_values(m) ==> parsed(dumped(m)) == m,
{
    dump_lines_are_lines(m);
    lines_of_unlines(dump_lines(m));
    read_dump(m);
    if tidy_values(m) {
        trimmed_tidy(m);
    }
}

/// Sections that a text can have been read as.
spec fn read_state(st: (Seq<Section>, int)) -> bool {
    &&& writable(st.0)
    &&& tidy_values(st.0)
    &&& 0 <= st.1 < st.0.len()
}

/// Another entry in one of the sections.
proof fn writable_update(m: Seq<Section>, i: int, kv: Seq<Entry>)
    requires
        writable(m),
        0 <= i < m.len(),
        writable_entries(kv),
    ensures
        writable(m.update(i, (m[i].0, kv))),
        tidy_values(m) && tidy_entries(kv) ==> tidy_values(m.update(i, (m[i].0, kv))),
{
    let w = m.update(i, (m[i].0, kv));
    assert forall|j: int| 0 <= j < w.len() implies (#[trigger] w[j]).0 == m[j].0 by {}
    if tidy_values(m) && tidy_entries(kv) {
        assert forall|j: int| 0 <= j < w.len() implies tidy_entries((#[trigger] w[j]).1) by {
            assert(tidy_entries(m[j].1));
        }
    }
    assert forall|j: int| 0 <= j < w.len() implies !(#[trigger] w[j]).0.contains('\n') by {
        assert(!m[j].0.contains('\n'));
    }
    assert forall|j: int, k: int| 0 <= j < k < w.len() implies !same_fold(
        (#[trigger] w[j]).0,
        (#[trigger] w[k]).0,
    ) by {
        assert(w[j].0 == m[j].0 && w[k].0 == m[k].0);
    }
    assert forall|j: int| 0 <= j < w.len() implies writable_entries((#[trigger] w[j]).1) by {
        assert(writable_entries(m[j].1));
    }
}

proof fn writable_push(m: Seq<Section>, name: Seq<char>)
    requires
        writable(m),
        !name.contains('\n'),
        section_from(m, name, 0) is None,
    ensures
        writable(m.push((name, Seq::empty()))),
        tidy_values(m) ==> tidy_values(m.push((name, Seq::empty()))),
{
    section_from_first(m, name, 0);
    let w = m.push((name, Seq::empty()));
    assert(name.len() > 0) by {
        if name.len() == 0 {
            assert(m[0].0 =~= name);
            assert(same_fold(m[0].0, name));
        }
    }
    if tidy_values(m) {
        assert forall|j: int| 0 <= j < w.len() implies tidy_entries((#[trigger] w[j]).1) by {
            if j < m.len() {
                assert(tidy_entries(m[j].1));
            }
        }
    }
    assert forall|j: int| 0 <= j < w.len() implies !(#[trigger] w[j]).0.contains('\n') by {
        if j < m.len() {
            assert(!m[j].0.contains('\n'));
        }
    }
    assert forall|j: int, k: int| 0 <= j < k < w.len() implies !same_fold(
        (#[trigger] w[j]).0,
        (#[trigger] w[k]).0,
    ) by {
        assert(w[j].0 == m[j].0);
        if k < m.len() {
            assert(w[k].0 == m[k].0);
        }
    }
    assert forall|j: int| 0 <= j < w.len() implies writable_entries((#[trigger] w[j]).1) by {
        if j < m.len() {
            assert(writable_entries(m[j].1));
        }
    }
}

proof fn entries_push(kv: Seq<Entry>, e: Entry)
    requires
        writable_entries(kv),
        writable_entry(e),
    ensures
        writable_entries(kv.push(e)),
        tidy_entries(kv) && tight(e.1) ==> tidy_entries(kv.push(e)),
{
    if tidy_entries(kv) && tight(e.1) {
        assert forall|k: int| 0 <= k < kv.push(e).len() implies tight((#[trigger] kv.push(e)[k]).1) by {
            if k < kv.len() {
                assert(tight(kv[k].1));
            }
        }
    }
    assert forall|k: int| 0 <= k < kv.push(e).len() implies writable_entry(
        #[trigger] kv.push(e)[k],
    ) by {
        if k < kv.len() {
            assert(writable_entry(kv[k]));
        }
    }
}

/// What a line holds can be written again.
proof fn read_line_writable(st: (Seq<Section>, int), line: Seq<char>)
    requires
        read_state(st),
        !line.contains('\n'),
    ensures
        read_state(read_line(st, line)),
{
    let s = trim(line);
    trim_shape(line);
    trim_within(line, '\n');
    if is_blank(s) {
    } else if is_heading(s) {
        let name = s.subrange(1, s.len() - 1);
        assert forall|i: int| 0 <= i < name.len() implies name[i] != '\n' by {
            assert(name[i] == s[i + 1]);
        }
        section_from_first(st.0, name, 0);
        if section_from(st.0, name, 0) is None {
            writable_push(st.0, name);
        }
    } else {
        reveal_strlit("=");
        assert("="@ =~= seq!['=']);
        split_char_once(s, '=');
        if let Some(v) = after_first(s, "="@) {
            let k = before_first(s, "="@);
            assert(s == k.push('=') + v);
            let e = (trim(k), trim(v));
            assert forall|i: int| 0 <= i < k.len() implies k[i] != '\n' by {
                assert(k[i] == s[i]);
            }
            assert forall|i: int| 0 <= i < v.len() implies v[i] != '\n' by {
                assert(v[i] == s[k.len() + 1 + i]);
            }
            trim_within(k, '\n');
            trim_within(v, '\n');
            trim_within(k, '=');
            trim_shape(k);
            trim_shape(v);
            entry_line_shape(e);
            let l = entry_line(e);
            if k.len() > 0 {
                assert(k[0] == s[0]);
                trim_keeps_ends(k);
                assert(l[0] == e.0[0]);
            } else {
                assert(e.0.len() == 0);
                assert(l[0] == '=');
            }
            if v.len() > 0 {
                assert(v.last() == s.last());
                trim_keeps_ends(v);
                assert(l.last() == e.1.last());
            } else {
                assert(e.1.len() == 0);
                assert(l.last() == '=');
            }
            assert(writable_entry(e));
            assert(tidy_entries(st.0[st.1].1));
            entries_push(st.0[st.1].1, e);
            writable_update(st.0, st.1, st.0[st.1].1.push(e));
        }
    }
}

proof fn read_lines_writable(ls: Seq<Seq<char>>)
    requires
        forall|i: int| 0 <= i < ls.len() ==> !(#[trigger] ls[i]).contains('\n'),
    ensures
        read_state(read_lines(ls)),
    decreases ls.len(),
{
    if ls.len() == 0 {
        let m = seq![root()];
        assert(writable_entries(m[0].1));
        assert(writable(m));
    } else {
        let u = ls.drop_last();
        assert forall|i: int| 0 <= i < u.len() implies !(#[trigger] u[i]).contains('\n') by {
            assert(!ls[i].contains('\n'));
        }
        read_lines_writable(u);
        assert(!ls[ls.len() - 1].contains('\n'));
        read_line_writable(read_lines(u), ls.last());
    }
}

/// Writing what was read and reading it again changes nothing, whatever the
/// text was.
pub proof fn law_reread(text: Seq<char>)
    ensures
        writable(parsed(text)),
        tidy_values(parsed(text)),
        parsed(dumped(parsed(text))) == parsed(text),
{
    lines_clean(text);
    read_lines_writable(lines(text));
    law_parse_of_dump(parsed(text));
}

/// What a file holds can be written again.
pub proof fn loaded_writable(text: Option<Seq<char>>)
    ensures
        writable(loaded(text)),
        tidy_values(loaded(text)),
{
    match text {
        Some(t) => {
            law_reread(t);
        },
        None => {
            read_lines_writable(Seq::empty());
        },
    }
}

/// A value that is there, set again.
proof fn set_same(m: Seq<Section>, section: Seq<char>, key: Seq<char>, value: Seq<char>)
    requires
        value_of(m, section, key) == Some(value),
    ensures
        with_value(m, section, key, value) == m,
{
    section_from_first(m, section, 0);
    let i = section_from(m, section, 0)->0;
    entry_from_first(m[i].1, key, 0);
    let j = entry_from(m[i].1, key, 0)->0;
    assert(with_entry(m[i].1, key, value) =~= m[i].1);
    assert(with_value(m, section, key, value) =~= m);
}

/// A key that can stand at the head of any line.
pub open spec fn plain_key(k: Seq<char>) -> bool {
    &&& k.len() > 0
    &&& tight(k)
    &&& !k.contains('\n')
    &&& !k.contains('=')
    &&& k[0] != ';' && k[0] != '#' && k[0] != '['
}

proof fn plain_entry(k: Seq<char>, v: Seq<char>)
    requires
        plain_key(k),
        ends_tight(v),
        !v.contains('\n'),
    ensures
        writable_entry((k, v)),
{
    entry_line_shape((k, v));
    assert(entry_line((k, v))[0] == k[0]);
}

/// An entry whose key is plain, case aside, takes any one-line value that does
/// not end in white space.
proof fn entry_with_value(e: Entry, k: Seq<char>, v: Seq<char>)
    requires
        writable_entry(e),
        same_fold(e.0, k),
        plain_key(k),
        ends_tight(v),
        !v.contains('\n'),
    ensures
        writable_entry((e.0, v)),
{
    assert(lower(e.0).len() == lower(k).len());
    assert(lower(e.0)[0] == lower(k)[0]);
    assert(lower_char(e.0[0]) == lower_char(k[0]));
    entry_line_shape(e);
    assert(entry_line(e)[0] == e.0[0]);
    plain_entry(e.0, v);
}

/// Setting a one-line value that does not end in white space under a plain key
/// leaves sections that can be written, and no white space around a value where
/// there is none around the new one.
pub proof fn law_set_writable(
    m: Seq<Section>,
    section: Seq<char>,
    key: Seq<char>,
    value: Seq<char>,
)
    requires
        writable(m),
        !section.contains('\n'),
        plain_key(key),
        ends_tight(value),
        !value.contains('\n'),
    ensures
        writable(with_value(m, section, key, value)),
        tidy_values(m) && tight(value) ==> tidy_values(with_value(m, section, key, value)),
{
    section_from_first(m, section, 0);
    if section_from(m, section, 0) is None {
        writable_push(m, section);
    }
    let (o, i) = opened(m, section);
    let kv = o[i].1;
    assert(writable_entries(kv));
    let tidy = tidy_values(m) && tight(value);
    if tidy {
        assert(tidy_entries(kv));
    }
    entry_from_first(kv, key, 0);
    match entry_from(kv, key, 0) {
        Some(j) => {
            assert(writable_entry(kv[j]));
            entry_with_value(kv[j], key, value);
            let n = kv.update(j, (kv[j].0, value));
            assert forall|k: int| 0 <= k < n.len() implies writable_entry(#[trigger] n[k]) by {
                if k != j {
                    assert(writable_entry(kv[k]));
                }
            }
            if tidy {
                assert forall|k: int| 0 <= k < n.len() implies tight((#[trigger] n[k]).1) by {
                    if k != j {
                        assert(tight(kv[k].1));
                    }
                }
            }
        },
        None => {
            plain_entry(key, value);
            entries_push(kv, (key, value));
        },
    }
    writable_update(o, i, with_entry(kv, key, value));
}

/// The items of a list value hold nothing that the value does not.
proof fn items_within(s: Seq<char>, i: int, cur: Seq<char>, c: char)
    requires
        0 <= i,
        !s.contains(c),
        !cur.contains(c),
    ensures
        forall|k: int|
            0 <= k < items_from(s, i, cur).len() ==> !(#[trigger] items_from(
                s,
                i,
                cur,
            )[k]).contains(c),
    decreases s.len() - i,
{
    if i < s.len() {
        assert(s[i] != c);
        assert forall|x: char| x != c implies !(#[trigger] cur.push(x)).contains(c) by {
            assert forall|k: int| 0 <= k < cur.push(x).len() implies cur.push(x)[k] != c by {
                if k < cur.len() {
                    assert(cur[k] != c);
                }
            }
        }
        if s[i] != ',' {
            assert(!cur.push(s[i]).contains(c));
            items_within(s, i + 1, cur.push(s[i]), c);
            assert(items_from(s, i, cur) == items_from(s, i + 1, cur.push(s[i])));
        } else if i + 1 < s.len() && s[i + 1] == ',' {
            assert(!cur.push(',').contains(c));
            items_within(s, i + 2, cur.push(','), c);
            assert(items_from(s, i, cur) == items_from(s, i + 2, cur.push(',')));
        } else {
            items_within(s, i + 1, Seq::empty(), c);
            let r = items_from(s, i + 1, Seq::empty());
            let w = items_from(s, i, cur);
            assert(w == item(cur) + r);
            assert forall|k: int| 0 <= k < w.len() implies !(#[trigger] w[k]).contains(c) by {
                if k >= item(cur).len() {
                    assert(w[k] == r[k - item(cur).len()]);
                }
            }
        }
    }
}

proof fn escaped_within(x: Seq<char>, c: char)
    requires
        !x.contains(c),
        c != ',',
    ensures
        !escaped(x).contains(c),
        x.len() > 0 ==> escaped(x).len() > 0 && escaped(x).last() == x.last(),
    decreases x.len(),
{
    reveal_strlit(",,");
    if x.len() > 0 {
        let y = x.drop_last();
        assert forall|k: int| 0 <= k < y.len() implies y[k] != c by {
            assert(y[k] == x[k]);
        }
        escaped_within(y, c);
        let e = escaped(x);
        assert(x[x.len() - 1] != c);
        assert forall|k: int| 0 <= k < e.len() implies e[k] != c by {
            if k < escaped(y).len() {
                assert(e[k] == escaped(y)[k]);
            }
        }
    }
}

/// Parts of one line make a text of one line, which ends as the last part does.
proof fn join_within(ps: Seq<Seq<char>>, c: char)
    requires
        c != ',',
        forall|k: int| 0 <= k < ps.len() ==> !(#[trigger] ps[k]).contains(c),
    ensures
        !join(ps, ","@).contains(c),
        ps.len() > 0 && ps.last().len() > 0 ==> join(ps, ","@).len() > 0 && join(ps, ","@).last()
            == ps.last().last(),
    decreases ps.len(),
{
    reveal_strlit(",");
    if ps.len() > 1 {
        let u = ps.drop_last();
        assert forall|k: int| 0 <= k < u.len() implies !(#[trigger] u[k]).contains(c) by {
            assert(u[k] == ps[k]);
        }
        join_within(u, c);
        let l = ps[ps.len() - 1];
        assert(!l.contains(c));
        let a = join(u, ","@);
        let j = join(ps, ","@);
        assert(j == a + ","@ + l);
        assert forall|k: int| 0 <= k < j.len() implies j[k] != c by {
            if k < a.len() {
                assert(j[k] == a[k]);
            } else if k > a.len() {
                assert(j[k] == l[k - a.len() - 1]);
            }
        }
    } else if ps.len() == 1 {
        assert(!ps[0].contains(c));
    }
}

/// A list of one-line items makes a one-line value, which ends as the last item
/// does.
proof fn listed_fits(v: Seq<Seq<char>>)
    requires
        forall|k: int| 0 <= k < v.len() ==> !(#[trigger] v[k]).contains('\n'),
    ensures
        !listed(v).contains('\n'),
        v.len() > 0 && v.last().len() > 0 ==> listed(v).len() > 0 && listed(v).last()
            == v.last().last(),
{
    let e = v.map_values(|s: Seq<char>| escaped(s));
    assert forall|k: int| 0 <= k < e.len() implies !(#[trigger] e[k]).contains('\n') by {
        assert(!v[k].contains('\n'));
        escaped_within(v[k], '\n');
    }
    join_within(e, '\n');
    if v.len() > 0 {
        assert(!v[v.len() - 1].contains('\n'));
        escaped_within(v.last(), '\n');
    }
}

proof fn filter_fits(v: Seq<Seq<char>>, keep: spec_fn(Seq<char>) -> bool)
    requires
        forall|k: int| 0 <= k < v.len() ==> !(#[trigger] v[k]).contains('\n'),
    ensures
        forall|k: int|
            0 <= k < v.filter(keep).len() ==> !(#[trigger] v.filter(keep)[k]).contains('\n'),
    decreases v.len(),
{
    reveal(Seq::filter);
    if v.len() > 0 {
        let u = v.drop_last();
        assert forall|k: int| 0 <= k < u.len() implies !(#[trigger] u[k]).contains('\n') by {
            assert(u[k] == v[k]);
        }
        filter_fits(u, keep);
        assert(!v[v.len() - 1].contains('\n'));
        let f = u.filter(keep);
        let g = v.filter(keep);
        assert forall|k: int| 0 <= k < g.len() implies !(#[trigger] g[k]).contains('\n') by {
            if k < f.len() {
                assert(g[k] == f[k]);
            }
        }
    }
}

proof fn define_fits(raw: Seq<char>, define: Seq<char>)
    requires
        !raw.contains('\n'),
        define.len() > 0,
        tight(define),
        !define.contains('\n'),
    ensures
        ends_tight(with_define(raw, define)),
        !with_define(raw, define).contains('\n'),
{
    let v = items(raw);
    items_within(raw, 0, Seq::empty(), '\n');
    let keep = |d: Seq<char>| define_name(d) != define_name(define);
    filter_fits(v, keep);
    let f = v.filter(keep);
    let w = f.push(define);
    assert forall|k: int| 0 <= k < w.len() implies !(#[trigger] w[k]).contains('\n') by {
        if k < f.len() {
            assert(w[k] == f[k]);
        }
    }
    listed_fits(w);
}

/// A value that was read is of one line.
pub proof fn value_one_line(m: Seq<Section>, section: Seq<char>, key: Seq<char>)
    requires
        writable(m),
    ensures
        value_of(m, section, key) matches Some(v) ==> !v.contains('\n') && (tidy_values(m) ==> tight(
            v,
        )),
{
    section_from_first(m, section, 0);
    if let Some(i) = section_from(m, section, 0) {
        entry_from_first(m[i].1, key, 0);
        assert(writable_entries(m[i].1));
        if let Some(j) = entry_from(m[i].1, key, 0) {
            assert(writable_entry(m[i].1[j]));
            if tidy_values(m) {
                assert(tidy_entries(m[i].1));
            }
        }
    }
}

/// The sections with a default, which is a tight one-line value.
proof fn default_kept(m: Seq<Section>, section: Seq<char>, key: Seq<char>, value: Seq<char>)
    requires
        writable(m),
        tidy_values(m),
        !section.contains('\n'),
        plain_key(key),
        tight(value),
        !value.contains('\n'),
    ensures
        writable(with_default(m, section, key, value)),
        tidy_values(with_default(m, section, key, value)),
        value_of(with_default(m, section, key, value), section, key) is Some,
        forall|k: Seq<char>|
            !same_fold(key, k) ==> #[trigger] value_of(
                with_default(m, section, key, value),
                section,
                k,
            ) == value_of(m, section, k),
{
    law_set_writable(m, section, key, value);
    law_set_then_get(m, section, key, value);
    assert forall|k: Seq<char>| !same_fold(key, k) implies #[trigger] value_of(
        with_default(m, section, key, value),
        section,
        k,
    ) == value_of(m, section, k) by {
        law_set_keeps_others(m, section, key, value, section, k);
    }
}

proof fn other_length(a: Seq<char>, b: Seq<char>)
    requires
        a.len() != b.len(),
    ensures
        !same_fold(a, b),
{
    assert(lower(a).len() != lower(b).len());
}

/// The settings, made in a file that has them, change nothing.
proof fn settings_fixed(m: Seq<Section>)
    requires
        value_of(m, "GENERAL"@, "EffectSearchPaths"@) is Some,
        value_of(m, "GENERAL"@, "TextureSearchPaths"@) is Some,
        value_of(m, "GENERAL"@, "PresetPath"@) is Some,
        value_of(m, "GENERAL"@, "PreprocessorDefinitions"@) matches Some(v) && with_define(
            v,
            MV_PROVIDER_DEFINE@,
        ) == v,
    ensures
        reshade_settings(m) == m,
{
    let v = value_of(m, "GENERAL"@, "PreprocessorDefinitions"@)->0;
    set_same(m, "GENERAL"@, "PreprocessorDefinitions"@, v);
}

/// What the settings leave: each of them is there, and the text gives it back,
/// but for white space before the definitions.
pub proof fn settings_made(m: Seq<Section>)
    requires
        writable(m),
        tidy_values(m),
    ensures
        writable(reshade_settings(m)),
        tight(
            with_define(
                or_empty(value_of(m, "GENERAL"@, "PreprocessorDefinitions"@)),
                MV_PROVIDER_DEFINE@,
            ),
        ) ==> tidy_values(reshade_settings(m)),
        value_of(reshade_settings(m), "GENERAL"@, "EffectSearchPaths"@) is Some,
        value_of(reshade_settings(m), "GENERAL"@, "TextureSearchPaths"@) is Some,
        value_of(reshade_settings(m), "GENERAL"@, "PresetPath"@) is Some,
        value_of(reshade_settings(m), "GENERAL"@, "PreprocessorDefinitions"@) == Some(
            with_define(
                or_empty(value_of(m, "GENERAL"@, "PreprocessorDefinitions"@)),
                MV_PROVIDER_DEFINE@,
            ),
        ),
{
    reveal_strlit("GENERAL");
    reveal_strlit("EffectSearchPaths");
    reveal_strlit("TextureSearchPaths");
    reveal_strlit("PresetPath");
    reveal_strlit("PreprocessorDefinitions");
    reveal_strlit(".\\reshade-shaders\\Shaders\\**");
    reveal_strlit(".\\reshade-shaders\\Textures\\**");
    reveal_strlit(".\\ReShadePreset.ini");
    reveal_strlit("DLSS5_MV_PROVIDER=3");
    let g = "GENERAL"@;
    let e = "EffectSearchPaths"@;
    let t = "TextureSearchPaths"@;
    let p = "PresetPath"@;
    let d = "PreprocessorDefinitions"@;
    other_length(e, t);
    other_length(e, p);
    other_length(e, d);
    other_length(t, e);
    other_length(t, p);
    other_length(t, d);
    other_length(p, e);
    other_length(p, t);
    other_length(p, d);
    other_length(d, e);
    other_length(d, t);
    other_length(d, p);
    let x = ".\\reshade-shaders\\Shaders\\**"@;
    let y = ".\\reshade-shaders\\Textures\\**"@;
    let z = ".\\ReShadePreset.ini"@;
    let a = with_default(m, g, e, x);
    default_kept(m, g, e, x);
    let b = with_default(a, g, t, y);
    default_kept(a, g, t, y);
    let c = with_default(b, g, p, z);
    default_kept(b, g, p, z);
    assert(value_of(c, g, d) == value_of(b, g, d));
    assert(value_of(b, g, d) == value_of(a, g, d));
    assert(value_of(a, g, d) == value_of(m, g, d));
    assert(value_of(c, g, e) == value_of(b, g, e));
    assert(value_of(b, g, e) == value_of(a, g, e));
    assert(value_of(c, g, t) == value_of(b, g, t));
    value_one_line(c, g, d);
    let raw = or_empty(value_of(c, g, d));
    let v = with_define(raw, MV_PROVIDER_DEFINE@);
    define_fits(raw, MV_PROVIDER_DEFINE@);
    law_set_writable(c, g, d, v);
    law_set_then_get(c, g, d, v);
    law_set_keeps_others(c, g, d, v, g, e);
    law_set_keeps_others(c, g, d, v, g, t);
    law_set_keeps_others(c, g, d, v, g, p);
}

/// Updating ReShade.ini again changes nothing, whether or not there was a file,
/// as long as the list of definitions does not begin with white space: that
/// would be gone when the list is read again.
pub proof fn law_settings_once(text: Option<Seq<char>>)
    requires
        tight(
            with_define(
                or_empty(value_of(loaded(text), "GENERAL"@, "PreprocessorDefinitions"@)),
                MV_PROVIDER_DEFINE@,
            ),
        ),
    ensures
        parsed(dumped(reshade_settings(loaded(text)))) == reshade_settings(loaded(text)),
        dumped(reshade_settings(parsed(dumped(reshade_settings(loaded(text)))))) == dumped(
            reshade_settings(loaded(text)),
        ),
{
    reveal_strlit("DLSS5_MV_PROVIDER=3");
    let m = loaded(text);
    loaded_writable(text);
    settings_made(m);
    let s = reshade_settings(m);
    law_parse_of_dump(s);
    law_define(
        or_empty(value_of(m, "GENERAL"@, "PreprocessorDefinitions"@)),
        MV_PROVIDER_DEFINE@,
    );
    settings_fixed(s);
}

proof fn techniques_fit(raw: Seq<char>)
    requires
        !raw.contains('\n'),
    ensures
        !with_techniques(raw).contains('\n'),
{
    reveal_strlit("Lumenite_Kernel@lumenite_Kernel.fx");
    reveal_strlit("DLSS5_Feed@DLSS5_Feed.fx");
    let v = items(raw);
    items_within(raw, 0, Seq::empty(), '\n');
    let keep = |t: Seq<char>| !is_ours(t);
    filter_fits(v, keep);
    let f = v.filter(keep);
    let w = seq![PROVIDER_TECHNIQUE@, FEED_TECHNIQUE@] + f;
    assert forall|k: int| 0 <= k < w.len() implies !(#[trigger] w[k]).contains('\n') by {
        if k >= 2 {
            assert(w[k] == f[k - 2]);
        }
    }
    listed_fits(w);
}

/// A list that reads back under the two techniques: no white space ends it, and
/// its first item does not begin with a comma.
pub open spec fn plain_list(raw: Seq<char>) -> bool {
    tight(with_techniques(raw)) && (items(raw).len() > 0 ==> items(raw)[0][0] != ',')
}

/// The lists that enabling the techniques in a preset reads.
pub open spec fn plain_preset(m: Seq<Section>) -> bool {
    &&& plain_list(or_empty(value_of(m, ""@, "Techniques"@)))
    &&& value_of(m, ""@, "TechniqueSorting"@) matches Some(raw) ==> plain_list(raw)
    &&& tight(
        with_define(
            or_empty(value_of(m, ""@, "PreprocessorDefinitions"@)),
            MV_PROVIDER_DEFINE@,
        ),
    )
}

/// What is set in the nameless section: the text gives it back, and the other
/// keys read as before.
proof fn root_value_kept(m: Seq<Section>, key: Seq<char>, value: Seq<char>)
    requires
        writable(m),
        tidy_values(m),
        plain_key(key),
        tight(value),
        !value.contains('\n'),
    ensures
        ({
            let w = with_value(m, ""@, key, value);
            &&& writable(w)
            &&& tidy_values(w)
            &&& value_of(w, ""@, key) == Some(value)
            &&& forall|k: Seq<char>|
                !same_fold(key, k) ==> #[trigger] value_of(w, ""@, k) == value_of(m, ""@, k)
        }),
{
    reveal_strlit("");
    law_set_writable(m, ""@, key, value);
    law_set_then_get(m, ""@, key, value);
    let w = with_value(m, ""@, key, value);
    assert forall|k: Seq<char>| !same_fold(key, k) implies #[trigger] value_of(w, ""@, k)
        == value_of(m, ""@, k) by {
        law_set_keeps_others(m, ""@, key, value, ""@, k);
    }
}

/// Enabling the techniques in a preset again changes nothing, whether or not
/// there was a preset, as long as its lists read back.
pub proof fn law_preset_once(text: Option<Seq<char>>)
    requires
        plain_preset(loaded(text)),
    ensures
        dumped(preset_settings(parsed(dumped(preset_settings(loaded(text)))))) == dumped(
            preset_settings(loaded(text)),
        ),
{
    reveal_strlit("");
    reveal_strlit("Techniques");
    reveal_strlit("TechniqueSorting");
    reveal_strlit("PreprocessorDefinitions");
    reveal_strlit("DLSS5_MV_PROVIDER=3");
    let m = loaded(text);
    loaded_writable(text);
    let t = "Techniques"@;
    let o = "TechniqueSorting"@;
    let d = "PreprocessorDefinitions"@;
    other_length(t, o);
    other_length(t, d);
    other_length(o, t);
    other_length(o, d);
    other_length(d, t);
    other_length(d, o);
    value_one_line(m, ""@, t);
    value_one_line(m, ""@, o);
    value_one_line(m, ""@, d);
    let rt = or_empty(value_of(m, ""@, t));
    techniques_fit(rt);
    let a = with_value(m, ""@, t, with_techniques(rt));
    root_value_kept(m, t, with_techniques(rt));
    assert(value_of(a, ""@, o) == value_of(m, ""@, o));
    assert(value_of(a, ""@, d) == value_of(m, ""@, d));
    let ro = or_empty(value_of(m, ""@, o));
    let b = match value_of(a, ""@, o) {
        Some(raw) => with_value(a, ""@, o, with_techniques(raw)),
        None => a,
    };
    if value_of(a, ""@, o) is Some {
        techniques_fit(ro);
        root_value_kept(a, o, with_techniques(ro));
    }
    assert(value_of(b, ""@, t) == value_of(a, ""@, t));
    assert(value_of(b, ""@, d) == value_of(m, ""@, d));
    let rd = or_empty(value_of(m, ""@, d));
    let v = with_define(rd, MV_PROVIDER_DEFINE@);
    define_fits(rd, MV_PROVIDER_DEFINE@);
    let s = with_value(b, ""@, d, v);
    root_value_kept(b, d, v);
    assert(s == preset_settings(m));
    assert(value_of(s, ""@, t) == Some(with_techniques(rt)));
    assert(value_of(s, ""@, o) == value_of(b, ""@, o));
    law_parse_of_dump(s);
    // Once more: each of the values is what it would be set to.
    law_techniques_enabled(rt);
    set_same(s, ""@, t, with_techniques(rt));
    if value_of(m, ""@, o) is Some {
        law_techniques_enabled(ro);
        set_same(s, ""@, o, with_techniques(ro));
    }
    law_define(rd, MV_PROVIDER_DEFINE@);
    set_same(s, ""@, d, v);
}

} // verus!
