//! Windows' per-application GPU preference.
//!
//! On a hybrid machine (laptop iGPU + dGPU, or a display adapter of another make
//! alongside the NVIDIA card) Windows decides which adapter a process runs on.
//! When it picks the iGPU, NGX does not exist there and its initialisation
//! answers `0xBAD00001` (FeatureNotSupported).
//!
//! Settings writes that choice to
//! `HKCU\Software\Microsoft\DirectX\UserGpuPreferences` as a text named by the
//! executable's full path, holding `GpuPreference=2;` (0 = let Windows decide,
//! 1 = power saving, 2 = high performance). Other tokens may share the value
//! (`AppStatus=`, `AutoHDREnable=`, `SpecificAdapter=`), so only the
//! `GpuPreference` token is touched.
use vstd::prelude::*;

use crate::chars::{lower, lower_string};
use crate::gpu::{classify, is_virtual, is_virtual_adapter, tier_of, Tier};
use crate::outside::{text_of_units, utf16_lossy};
use crate::str_laws::{
    filter_all, pieces_clean, pieces_of_join, tight, trim_shape, trim_tight, trim_within,
};
use crate::strs::{
    contains, join, keep_strings, occurs, opt_string, opt_text, pieces, split_char, starts, starts_with,
    str_eq, texts, texts_push, trim, trimmed,
};

verus! {

pub const KEY: &'static str = "Software\\Microsoft\\DirectX\\UserGpuPreferences";

pub const HIGH_PERFORMANCE: &'static str = "GpuPreference=2;";

/// The adapters with a graphics card behind them.
pub open spec fn cards(names: Seq<Seq<char>>) -> Seq<Seq<char>> {
    names.filter(|n: Seq<char>| !is_virtual(n))
}

/// An NVIDIA card and one of another make.
pub open spec fn is_hybrid(names: Seq<Seq<char>>) -> bool {
    &&& exists|i: int| 0 <= i < names.len() && occurs(lower(#[trigger] names[i]), "nvidia"@)
    &&& exists|i: int| 0 <= i < names.len() && tier_of(#[trigger] names[i]) == Tier::NotNvidia
}

/// True when a non-NVIDIA display adapter sits next to an NVIDIA one, i.e. the
/// machine can start a process on a GPU that has no NGX.
pub fn hybrid(adapters: &[String]) -> (r: bool)
    ensures
        r == is_hybrid(cards(texts(adapters@))),
{
    hybrid_from(real_adapters(adapters).as_slice())
}

/// Display adapters that are actual graphics hardware. A machine with a VR
/// runtime or a virtual-monitor driver lists several that are not.
pub fn real_adapters(adapters: &[String]) -> (r: Vec<String>)
    ensures
        texts(r@) == cards(texts(adapters@)),
{
    let ghost keep = |n: Seq<char>| !is_virtual(n);
    let fits = |n: &String| -> (b: bool)
        ensures
            b == !is_virtual(n@),
        {
            !is_virtual_adapter(n.as_str())
        };
    keep_strings(adapters, fits, Ghost(keep))
}

pub fn hybrid_from(names: &[String]) -> (r: bool)
    ensures
        r == is_hybrid(texts(names@)),
{
    let ghost v = texts(names@);
    let mut nvidia = false;
    let mut other = false;
    let mut i: usize = 0;
    while i < names.len()
        invariant
            i <= names@.len(),
            v == texts(names@),
            nvidia == exists|j: int| 0 <= j < i && occurs(lower(#[trigger] v[j]), "nvidia"@),
            other == exists|j: int| 0 <= j < i && tier_of(#[trigger] v[j]) == Tier::NotNvidia,
        decreases names@.len() - i,
    {
        let n = names[i].as_str();
        assert(v[i as int] == n@);
        let low = lower_string(n);
        if contains(low.as_str(), "nvidia") {
            nvidia = true;
        }
        if classify(n) == Tier::NotNvidia {
            other = true;
        }
        i += 1;
    }
    nvidia && other
}

/// The tokens of a value.
pub open spec fn tokens(value: Seq<char>) -> Seq<Seq<char>> {
    pieces(value, ';').map_values(|t: Seq<char>| trim(t))
}

/// A token that is no GPU preference.
pub open spec fn is_other(t: Seq<char>) -> bool {
    t.len() > 0 && !starts(t, "GpuPreference="@)
}

/// The tokens of a value that are no GPU preference.
pub open spec fn other_tokens(value: Seq<char>) -> Seq<Seq<char>> {
    tokens(value).filter(|t: Seq<char>| is_other(t))
}

/// Each token, and a semicolon after it.
pub open spec fn closed(v: Seq<Seq<char>>) -> Seq<char>
    decreases v.len(),
{
    if v.len() == 0 {
        Seq::empty()
    } else {
        closed(v.drop_last()) + v.last().push(';')
    }
}

/// The value that asks for the high-performance GPU and keeps the rest.
pub open spec fn preferring(value: Seq<char>) -> Seq<char> {
    closed(other_tokens(value)) + HIGH_PERFORMANCE@
}

fn split_tokens(value: &str) -> (r: Vec<String>)
    ensures
        texts(r@) == tokens(value@),
{
    broadcast use texts_push;

    let parts = split_char(value, ';');
    let ghost all = tokens(value@);
    let mut out: Vec<String> = Vec::new();
    let mut i: usize = 0;
    assert(texts(out@) =~= all.take(0));
    while i < parts.len()
        invariant
            i <= parts@.len(),
            texts(parts@) == pieces(value@, ';'),
            all == tokens(value@),
            texts(out@) == all.take(i as int),
        decreases parts@.len() - i,
    {
        broadcast use texts_push;

        assert(all[i as int] == trim(parts@[i as int]@));
        assert(all.take(i + 1) =~= all.take(i as int).push(all[i as int]));
        out.push(trimmed(parts[i].as_str()));
        i += 1;
    }
    assert(all.take(i as int) =~= all);
    out
}

/// Replace (or add) the `GpuPreference` token, keeping every other token.
pub fn with_high_performance(existing: &str) -> (r: String)
    ensures
        r@ == preferring(existing@),
{
    let ghost keep = |t: Seq<char>| is_other(t);
    let other = |t: &String| -> (b: bool)
        ensures
            b == is_other(t@),
        {
            !t.as_str().is_empty() && !starts_with(t.as_str(), "GpuPreference=")
        };
    let v = keep_strings(split_tokens(existing).as_slice(), other, Ghost(keep));
    let ghost all = other_tokens(existing@);
    let mut out = String::new();
    let mut i: usize = 0;
    assert(all.take(0) =~= Seq::empty());
    assert(out@ =~= closed(all.take(0)));
    while i < v.len()
        invariant
            i <= v@.len(),
            texts(v@) == all,
            out@ == closed(all.take(i as int)),
        decreases v@.len() - i,
    {
        assert(all.take(i + 1).drop_last() =~= all.take(i as int));
        let ghost before = out@;
        assert(all[i as int] == v@[i as int]@);
        out.append(v[i].as_str());
        out.push(';');
        assert(out@ =~= before + all[i as int].push(';'));
        i += 1;
    }
    assert(all.take(i as int) =~= all);
    out.append(HIGH_PERFORMANCE);
    out
}

/// The value asks for the high-performance GPU.
pub open spec fn prefers(value: Seq<char>) -> bool {
    tokens(value).contains("GpuPreference=2"@)
}

/// Already asking for the high-performance GPU?
pub fn is_high_performance(value: &str) -> (r: bool)
    ensures
        r == prefers(value@),
{
    crate::strs::list_has(split_tokens(value).as_slice(), "GpuPreference=2")
}

/// How many units a text of `size` bytes has, without the zero that ends it and
/// no more than were read.
pub open spec fn text_units(size: u32, read: nat) -> nat {
    let n = (size / 2) as int - 1;
    if n < 0 {
        0
    } else if n > read {
        read
    } else {
        n as nat
    }
}

/// The preference that the registry holds: `units` were read of a text of `size`
/// bytes.
pub fn get(units: &[u16], size: u32) -> (r: String)
    ensures
        r@ == utf16_lossy(units@.take(text_units(size, units@.len()) as int)),
{
    let len: usize = units.len();
    let half: u32 = size / 2;
    let n: usize = if half == 0 {
        0
    } else if (half - 1) as u64 > len as u64 {
        len
    } else {
        (half - 1) as usize
    };
    let part = vstd::slice::slice_subrange(units, 0, n);
    assert(part@ =~= units@.take(n as int));
    text_of_units(part)
}

/// The value to write where the current one is that; nothing where it need not be
/// written.
pub open spec fn to_write(current: Option<Seq<char>>) -> Option<Seq<char>> {
    let now = match current {
        Some(c) => c,
        None => Seq::empty(),
    };
    if prefers(now) {
        None
    } else {
        Some(preferring(now))
    }
}

/// Ask Windows to run a program on the high-performance GPU: the value to write,
/// or nothing where the current one already says so.
pub fn set_high_performance(current: Option<&str>) -> (r: Option<String>)
    ensures
        opt_string(r) == to_write(opt_text(current)),
{
    let now = match current {
        Some(c) => c.to_owned(),
        None => {
            let none = String::new();
            assert(none@ =~= Seq::empty());
            none
        },
    };
    if is_high_performance(now.as_str()) {
        None
    } else {
        Some(with_high_performance(now.as_str()))
    }
}

/// The value is just what this tool writes where there was none.
pub open spec fn is_ours(value: Seq<char>) -> bool {
    trim(value) == HIGH_PERFORMANCE@
}

/// Is the current preference one to drop? A value carrying anything else (Auto
/// HDR, a specific adapter, the user's own choice) is left alone.
pub fn clear_ours(current: Option<&str>) -> (r: bool)
    ensures
        r == (match current {
            Some(c) => is_ours(c@),
            None => false,
        }),
{
    match current {
        Some(c) => {
            let t = trimmed(c);
            str_eq(t.as_str(), HIGH_PERFORMANCE)
        },
        None => false,
    }
}

proof fn closed_is_join(v: Seq<Seq<char>>)
    ensures
        closed(v) == join(v.push(Seq::empty()), seq![';']),
    decreases v.len(),
{
    let e = Seq::<char>::empty();
    if v.len() == 0 {
        assert(v.push(e).len() == 1);
    } else {
        let u = v.drop_last();
        closed_is_join(u);
        assert(v.push(e).drop_last() =~= v);
        assert(u.push(e).drop_last() =~= u);
        if u.len() == 0 {
            assert(closed(u) =~= e);
            assert(join(v, seq![';']) == v[0]);
            assert(closed(v) =~= join(v, seq![';']) + seq![';'] + e);
        } else {
            assert(join(u.push(e), seq![';']) == join(u, seq![';']) + seq![';'] + e);
            assert(join(v, seq![';']) == join(u, seq![';']) + seq![';'] + v.last());
            assert(closed(v) =~= join(v, seq![';']) + seq![';'] + e);
        }
    }
}

/// Tokens that are tight and hold no semicolon are those of the value that
/// closes them; an empty one follows.
proof fn tokens_of_closed(v: Seq<Seq<char>>)
    requires
        forall|i: int| 0 <= i < v.len() ==> tight(#[trigger] v[i]) && !v[i].contains(';'),
    ensures
        tokens(closed(v)) == v.push(Seq::empty()),
{
    let e = Seq::<char>::empty();
    let w = v.push(e);
    closed_is_join(v);
    assert forall|i: int| 0 <= i < w.len() implies !(#[trigger] w[i]).contains(';') by {
        if i < v.len() {
            assert(!v[i].contains(';'));
        }
    }
    pieces_of_join(w, ';');
    assert(tokens(closed(v)) =~= w) by {
        assert forall|i: int| 0 <= i < w.len() implies trim(w[i]) == w[i] by {
            if i < v.len() {
                assert(tight(v[i]));
            }
            trim_tight(w[i]);
        }
    }
}

proof fn other_tokens_plain(value: Seq<char>)
    ensures
        forall|i: int|
            0 <= i < other_tokens(value).len() ==> tight(#[trigger] other_tokens(value)[i])
                && !other_tokens(value)[i].contains(';') && is_other(other_tokens(value)[i]),
{
    let t = tokens(value);
    let keep = |t: Seq<char>| is_other(t);
    pieces_clean(value, ';');
    assert forall|i: int| 0 <= i < t.len() implies tight(#[trigger] t[i]) && !t[i].contains(
        ';',
    ) by {
        let p = pieces(value, ';')[i];
        assert(!p.contains(';'));
        trim_within(p, ';');
        trim_shape(p);
    }
    assert forall|i: int| 0 <= i < t.filter(keep).len() implies tight(#[trigger] t.filter(keep)[i])
        && !t.filter(keep)[i].contains(';') && is_other(t.filter(keep)[i]) by {
        t.lemma_filter_pred(keep, i);
        t.lemma_filter_contains_rev(keep, t.filter(keep)[i]);
        let k = t.index_of(t.filter(keep)[i]);
        assert(t[k] == t.filter(keep)[i]);
    }
}

/// A value that was changed asks for the high-performance GPU; it keeps every
/// other token, in its order, and one preference, which is the last; changing it
/// again changes nothing.
pub proof fn law_preference(value: Seq<char>)
    ensures
        prefers(preferring(value)),
        tokens(preferring(value)) == other_tokens(value).push("GpuPreference=2"@).push(
            Seq::empty(),
        ),
        other_tokens(preferring(value)) == other_tokens(value),
        preferring(preferring(value)) == preferring(value),
{
    reveal_strlit("GpuPreference=2;");
    reveal_strlit("GpuPreference=2");
    reveal_strlit("GpuPreference=");
    let v = other_tokens(value);
    let g = "GpuPreference=2"@;
    let w = v.push(g);
    other_tokens_plain(value);
    assert(w.drop_last() =~= v);
    assert(g.push(';') =~= HIGH_PERFORMANCE@);
    assert(closed(w) == preferring(value));
    assert forall|i: int| 0 <= i < w.len() implies tight(#[trigger] w[i]) && !w[i].contains(
        ';',
    ) by {
        if i < v.len() {
            assert(tight(v[i]));
        }
    }
    tokens_of_closed(w);
    let t = w.push(Seq::<char>::empty());
    assert(t[v.len() as int] == g);
    assert(t.contains(g));
    // Of those tokens only the others are kept.
    let keep = |t: Seq<char>| is_other(t);
    reveal(Seq::filter);
    assert(t.drop_last() =~= w);
    assert(!keep(Seq::<char>::empty()));
    assert(starts(g, "GpuPreference="@)) by {
        assert(g.subrange(0, 14) =~= "GpuPreference="@);
    }
    assert(t.last() =~= Seq::<char>::empty());
    assert(t.filter(keep) == w.filter(keep));
    assert(!keep(g));
    assert(w.filter(keep) == v.filter(keep));
    filter_all(v, keep);
}

/// A preference that was written where there was none is one to drop, and one
/// that is written beside other tokens is not.
pub proof fn law_clear(value: Seq<char>)
    ensures
        is_ours(preferring(value)) <==> other_tokens(value).len() == 0,
{
    reveal_strlit("GpuPreference=2;");
    let v = other_tokens(value);
    let h = HIGH_PERFORMANCE@;
    other_tokens_plain(value);
    let p = preferring(value);
    if v.len() == 0 {
        assert(p =~= h);
    } else {
        let c = closed(v);
        assert(c.len() > 0);
        assert(is_other(v[0]) && tight(v[0]));
        closed_starts(v);
        assert(p[0] == c[0]);
        assert(p.last() == ';');
    }
    assert(tight(p));
    trim_tight(p);
    if v.len() > 0 {
        assert(p.len() > h.len());
    }
}

proof fn closed_starts(v: Seq<Seq<char>>)
    requires
        v.len() > 0,
        v[0].len() > 0,
    ensures
        closed(v).len() > 0,
        closed(v)[0] == v[0][0],
    decreases v.len(),
{
    if v.len() > 1 {
        closed_starts(v.drop_last());
    } else {
        assert(closed(v.drop_last()) =~= Seq::empty());
    }
}

} // verus!
