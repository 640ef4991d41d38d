//! Minimal ReShade .ini reader and writer.
//!
//! ReShade stores multi-values comma-separated and escapes a literal comma as
//! ",,". `[GENERAL] EffectSearchPaths / TextureSearchPaths /
//! PreprocessorDefinitions / PresetPath` stand in ReShade.ini; `Techniques`,
//! `TechniqueSorting` and `PreprocessorDefinitions` in the preset's root
//! (section-less) block. Technique entries are `Name@File.fx`.
use vstd::prelude::*;

use crate::chars::{chars_of, lower, lower_string, string_of};
use crate::strs::{
    after_first, before_first, cut_after_first, cut_before_first, eq_fold, join, join_with,
    keep_strings, lines, lines_of, opt_string, opt_text, replace_char, replaced, same_fold,
    split_once, starts, starts_with, str_eq, texts, texts_push, trim, trimmed, unlines,
};

verus! {

/// Selects the LumeniteFX kernel.
pub const MV_PROVIDER_DEFINE: &'static str = "DLSS5_MV_PROVIDER=3";

/// The provider of motion vectors, which must sit above the feed.
pub const PROVIDER_TECHNIQUE: &'static str = "Lumenite_Kernel@lumenite_Kernel.fx";

pub const FEED_TECHNIQUE: &'static str = "DLSS5_Feed@DLSS5_Feed.fx";

pub const TECHNIQUES_ORDERED: [&'static str; 2] = [PROVIDER_TECHNIQUE, FEED_TECHNIQUE];

/// Key and value of one line.
pub type Entry = (Seq<char>, Seq<char>);

/// Name and entries of one section.
pub type Section = (Seq<char>, Seq<Entry>);

/// Ordered sections; the first is always the root ("").
#[derive(Debug, Clone, PartialEq)]
pub struct Ini {
    pub sections: Vec<(String, Vec<(String, String)>)>,
}

pub open spec fn entries(v: Seq<(String, String)>) -> Seq<Entry> {
    v.map_values(|e: (String, String)| (e.0@, e.1@))
}

pub open spec fn section(s: (String, Vec<(String, String)>)) -> Section {
    (s.0@, entries(s.1@))
}

impl View for Ini {
    type V = Seq<Section>;

    open spec fn view(&self) -> Seq<Section> {
        self.sections@.map_values(|s: (String, Vec<(String, String)>)| section(s))
    }
}

/// The first section from `i` on whose name is `name`, case aside.
pub open spec fn section_from(m: Seq<Section>, name: Seq<char>, i: int) -> Option<int>
    decreases m.len() - i,
{
    if i < 0 || i >= m.len() {
        None
    } else if same_fold(m[i].0, name) {
        Some(i)
    } else {
        section_from(m, name, i + 1)
    }
}

/// The first entry from `i` on whose key is `key`, case aside.
pub open spec fn entry_from(kv: Seq<Entry>, key: Seq<char>, i: int) -> Option<int>
    decreases kv.len() - i,
{
    if i < 0 || i >= kv.len() {
        None
    } else if same_fold(kv[i].0, key) {
        Some(i)
    } else {
        entry_from(kv, key, i + 1)
    }
}

/// The value that a section holds under a key.
pub open spec fn value_of(m: Seq<Section>, section: Seq<char>, key: Seq<char>) -> Option<Seq<char>> {
    match section_from(m, section, 0) {
        Some(i) => match entry_from(m[i].1, key, 0) {
            Some(j) => Some(m[i].1[j].1),
            None => None,
        },
        None => None,
    }
}

/// The sections with one named `name` among them, and its place.
pub open spec fn opened(m: Seq<Section>, name: Seq<char>) -> (Seq<Section>, int) {
    match section_from(m, name, 0) {
        Some(i) => (m, i),
        None => (m.push((name, Seq::empty())), m.len() as int),
    }
}

pub open spec fn with_entry(kv: Seq<Entry>, key: Seq<char>, value: Seq<char>) -> Seq<Entry> {
    match entry_from(kv, key, 0) {
        Some(j) => kv.update(j, (kv[j].0, value)),
        None => kv.push((key, value)),
    }
}

/// The sections with `value` under `key`: in place where the key is there, else
/// added at the end of its section.
pub open spec fn with_value(
    m: Seq<Section>,
    section: Seq<char>,
    key: Seq<char>,
    value: Seq<char>,
) -> Seq<Section> {
    let (o, i) = opened(m, section);
    o.update(i, (o[i].0, with_entry(o[i].1, key, value)))
}

/// The same, but a value that is there stays.
pub open spec fn with_default(
    m: Seq<Section>,
    section: Seq<char>,
    key: Seq<char>,
    value: Seq<char>,
) -> Seq<Section> {
    if value_of(m, section, key) is None {
        with_value(m, section, key, value)
    } else {
        m
    }
}

/// A line that holds nothing: empty, or a comment.
pub open spec fn is_blank(s: Seq<char>) -> bool {
    s.len() == 0 || s[0] == ';' || s[0] == '#'
}

/// A line that opens a section.
pub open spec fn is_heading(s: Seq<char>) -> bool {
    s.len() > 0 && s[0] == '[' && s.last() == ']'
}

/// Reading one line: the sections so far, and the one that is open.
pub open spec fn read_line(st: (Seq<Section>, int), line: Seq<char>) -> (Seq<Section>, int) {
    let s = trim(line);
    if is_blank(s) {
        st
    } else if is_heading(s) {
        opened(st.0, s.subrange(1, s.len() - 1))
    } else {
        match after_first(s, "="@) {
            Some(v) => (
                st.0.update(
                    st.1,
                    (st.0[st.1].0, st.0[st.1].1.push((trim(before_first(s, "="@)), trim(v)))),
                ),
                st.1,
            ),
            None => st,
        }
    }
}

pub open spec fn root() -> Section {
    (Seq::empty(), Seq::empty())
}

pub open spec fn read_lines(ls: Seq<Seq<char>>) -> (Seq<Section>, int)
    decreases ls.len(),
{
    if ls.len() == 0 {
        (seq![root()], 0)
    } else {
        read_line(read_lines(ls.drop_last()), ls.last())
    }
}

/// The sections of a text.
pub open spec fn parsed(text: Seq<char>) -> Seq<Section> {
    read_lines(lines(text)).0
}

/// The sections of a file: the nameless one alone where there is no file.
pub open spec fn loaded(text: Option<Seq<char>>) -> Seq<Section> {
    match text {
        Some(t) => parsed(t),
        None => seq![root()],
    }
}

/// The first section is the nameless one.
pub open spec fn rooted(m: Seq<Section>) -> bool {
    m.len() > 0 && m[0].0.len() == 0
}

/// The line of an entry.
pub open spec fn entry_line(e: Entry) -> Seq<char> {
    e.0 + "="@ + e.1
}

/// The line that opens a section.
pub open spec fn heading(name: Seq<char>) -> Seq<char> {
    "["@ + name + "]"@
}

pub open spec fn entry_lines(kv: Seq<Entry>) -> Seq<Seq<char>> {
    kv.map_values(|e: Entry| entry_line(e))
}

/// The lines down to a section's heading: a blank line stands before each
/// heading but that of the first line.
pub open spec fn with_heading(d: Seq<Seq<char>>, name: Seq<char>) -> Seq<Seq<char>> {
    if name.len() == 0 {
        d
    } else if d.len() > 0 {
        d.push(Seq::empty()).push(heading(name))
    } else {
        d.push(heading(name))
    }
}

/// The lines that write the sections down.
pub open spec fn dump_lines(m: Seq<Section>) -> Seq<Seq<char>>
    decreases m.len(),
{
    if m.len() == 0 {
        Seq::empty()
    } else {
        with_heading(dump_lines(m.drop_last()), m.last().0) + entry_lines(m.last().1)
    }
}

pub open spec fn dumped(m: Seq<Section>) -> Seq<char> {
    unlines(dump_lines(m))
}

impl Default for Ini {
    /// The nameless section alone.
    fn default() -> (r: Ini)
        ensures
            r@ == seq![root()],
            rooted(r@),
    {
        let mut ini = Ini { sections: Vec::new() };
        ini.sections.push((String::new(), Vec::new()));
        assert(entries(ini.sections@[0].1@) =~= Seq::empty());
        assert(ini@ =~= seq![root()]);
        ini
    }
}

impl Ini {
    pub fn parse(text: &str) -> (r: Ini)
        ensures
            r@ == parsed(text@),
            rooted(r@),
    {
        let ls = lines_of(text);
        let mut ini = Ini::default();
        let mut cur: usize = 0;
        let mut i: usize = 0;
        assert(lines(text@).take(0) =~= Seq::<Seq<char>>::empty());
        while i < ls.len()
            invariant
                texts(ls@) == lines(text@),
                i <= ls@.len(),
                cur < ini.sections@.len(),
                rooted(ini@),
                (ini@, cur as int) == read_lines(lines(text@).take(i as int)),
            decreases ls@.len() - i,
        {
            assert(lines(text@).take(i + 1).drop_last() =~= lines(text@).take(i as int));
            assert(lines(text@)[i as int] == ls@[i as int]@);
            let s = trimmed(ls[i].as_str());
            let c = chars_of(s.as_str());
            let ghost before = ini@;
            i += 1;
            if c.len() == 0 || c[0] == ';' || c[0] == '#' {
                continue;
            }
            if c[0] == '[' && c[c.len() - 1] == ']' {
                let name = string_of(c.as_slice(), 1, c.len() - 1);
                cur = ini.section_index(name.as_str());
                continue;
            }
            if let Some((k, v)) = split_once(s.as_str(), "=") {
                let key = trimmed(k.as_str());
                let value = trimmed(v.as_str());
                let ghost kv = ini.sections@[cur as int].1@;
                ini.sections[cur].1.push((key, value));
                assert(entries(ini.sections@[cur as int].1@) =~= entries(kv).push((key@, value@)));
                assert(ini@ =~= before.update(
                    cur as int,
                    (before[cur as int].0, before[cur as int].1.push((key@, value@))),
                ));
            }
        }
        assert(lines(text@).take(i as int) =~= lines(text@));
        ini
    }

    /// The place of the section with that name, which is added at the end where
    /// there is none.
    fn section_index(&mut self, name: &str) -> (r: usize)
        ensures
            (final(self)@, r as int) == opened(old(self)@, name@),
            r < final(self).sections@.len(),
            rooted(old(self)@) ==> rooted(final(self)@),
    {
        let mut i: usize = 0;
        while i < self.sections.len()
            invariant
                i <= self.sections@.len(),
                self@ == old(self)@,
                section_from(self@, name@, 0) == section_from(self@, name@, i as int),
            decreases self.sections@.len() - i,
        {
            assert(self@[i as int] == section(self.sections@[i as int]));
            if eq_fold(self.sections[i].0.as_str(), name) {
                return i;
            }
            i += 1;
        }
        let ghost before = self@;
        self.sections.push((name.to_owned(), Vec::new()));
        assert(entries(self.sections@.last().1@) =~= Seq::empty());
        assert(self@ =~= before.push((name@, Seq::empty())));
        i
    }

    pub fn get(&self, section: &str, key: &str) -> (r: Option<&str>)
        ensures
            match r {
                Some(v) => value_of(self@, section@, key@) == Some(v@),
                None => value_of(self@, section@, key@) is None,
            },
    {
        let mut i: usize = 0;
        while i < self.sections.len()
            invariant
                i <= self.sections@.len(),
                section_from(self@, section@, 0) == section_from(self@, section@, i as int),
            decreases self.sections@.len() - i,
        {
            assert(self@[i as int] == crate::reshade_ini::section(self.sections@[i as int]));
            if eq_fold(self.sections[i].0.as_str(), section) {
                let kv = &self.sections[i].1;
                let mut j: usize = 0;
                while j < kv.len()
                    invariant
                        j <= kv@.len(),
                        i < self.sections@.len(),
                        section_from(self@, section@, 0) == Some(i as int),
                        self@[i as int].1 == entries(kv@),
                        entry_from(entries(kv@), key@, 0) == entry_from(entries(kv@), key@, j as int),
                    ensures
                        entry_from(entries(kv@), key@, 0) is None,
                    decreases kv@.len() - j,
                {
                    if eq_fold(kv[j].0.as_str(), key) {
                        return Some(kv[j].1.as_str());
                    }
                    j += 1;
                }
                return None;
            }
            i += 1;
        }
        None
    }

    pub fn set(&mut self, section: &str, key: &str, value: &str)
        ensures
            final(self)@ == with_value(old(self)@, section@, key@, value@),
            rooted(old(self)@) ==> rooted(final(self)@),
    {
        let i: usize = self.section_index(section);
        let ghost o = self@;
        let ghost kv = self.sections@[i as int].1@;
        let n: usize = self.sections[i].1.len();
        let mut j: usize = 0;
        while j < n
            invariant
                i < self.sections@.len(),
                self@ == o,
                kv == self.sections@[i as int].1@,
                n == kv.len(),
                j <= n,
                (o, i as int) == opened(old(self)@, section@),
                entry_from(entries(kv), key@, 0) == entry_from(entries(kv), key@, j as int),
            decreases n - j,
        {
            if eq_fold(self.sections[i].1[j].0.as_str(), key) {
                self.sections[i].1[j].1 = value.to_owned();
                assert(entries(self.sections@[i as int].1@) =~= entries(kv).update(
                    j as int,
                    (entries(kv)[j as int].0, value@),
                ));
                assert(self@ =~= with_value(old(self)@, section@, key@, value@));
                return;
            }
            j += 1;
        }
        self.sections[i].1.push((key.to_owned(), value.to_owned()));
        assert(entries(self.sections@[i as int].1@) =~= entries(kv).push((key@, value@)));
        assert(self@ =~= with_value(old(self)@, section@, key@, value@));
    }

    pub fn set_default(&mut self, section: &str, key: &str, value: &str)
        ensures
            final(self)@ == with_default(old(self)@, section@, key@, value@),
            rooted(old(self)@) ==> rooted(final(self)@),
    {
        if self.get(section, key).is_none() {
            self.set(section, key, value);
        }
    }

    pub fn dump(&self) -> (r: String)
        ensures
            r@ == dumped(self@),
    {
        let mut out = String::new();
        let mut i: usize = 0;
        while i < self.sections.len()
            invariant
                i <= self.sections@.len(),
                out@ == unlines(dump_lines(self@.take(i as int))),
            decreases self.sections@.len() - i,
        {
            let ghost d = dump_lines(self@.take(i as int));
            assert(self@.take(i + 1).drop_last() =~= self@.take(i as int));
            assert(self@[i as int] == section(self.sections@[i as int]));
            let name = &self.sections[i].0;
            let kv = &self.sections[i].1;
            proof {
                unlines_empty(d);
            }
            if !name.as_str().is_empty() {
                if !out.as_str().is_empty() {
                    out.push('\n');
                    proof {
                        unlines_push(d, Seq::empty());
                    }
                }
                let ghost d2 = if d.len() > 0 {
                    d.push(Seq::empty())
                } else {
                    d
                };
                assert(out@ =~= unlines(d2));
                out.append("[");
                out.append(name.as_str());
                out.append("]");
                out.push('\n');
                proof {
                    unlines_push(d2, heading(name@));
                }
                assert(out@ =~= unlines(d2.push(heading(name@))));
            }
            let ghost base = with_heading(d, name@);
            assert(out@ == unlines(base));
            let mut j: usize = 0;
            assert(base + entry_lines(entries(kv@).take(0)) =~= base);
            while j < kv.len()
                invariant
                    j <= kv@.len(),
                    out@ == unlines(base + entry_lines(entries(kv@).take(j as int))),
                decreases kv@.len() - j,
            {
                let ghost sofar = base + entry_lines(entries(kv@).take(j as int));
                let ghost e = entries(kv@)[j as int];
                proof {
                    unlines_push(sofar, entry_line(e));
                }
                out.append(kv[j].0.as_str());
                out.append("=");
                out.append(kv[j].1.as_str());
                out.push('\n');
                j += 1;
                assert(base + entry_lines(entries(kv@).take(j as int)) =~= sofar.push(entry_line(e)));
                assert(out@ =~= unlines(sofar) + entry_line(e).push('\n'));
            }
            assert(entries(kv@).take(j as int) =~= entries(kv@));
            i += 1;
        }
        assert(self@.take(i as int) =~= self@);
        out
    }

    /// The contents of a file; one that is not there has the nameless section
    /// alone.
    pub fn load(text: Option<&str>) -> (r: Ini)
        ensures
            r@ == loaded(opt_text(text)),
            rooted(r@),
    {
        match text {
            Some(t) => Ini::parse(t),
            None => Ini::default(),
        }
    }
}

/// Splitting from `i` on, with `cur` read of the current item: a comma pair is
/// a comma of the item, a single comma ends it, and empty items are dropped.
pub open spec fn items_from(s: Seq<char>, i: int, cur: Seq<char>) -> Seq<Seq<char>>
    decreases s.len() - i,
{
    if i < 0 || i >= s.len() {
        item(cur)
    } else if s[i] != ',' {
        items_from(s, i + 1, cur.push(s[i]))
    } else if i + 1 < s.len() && s[i + 1] == ',' {
        items_from(s, i + 2, cur.push(','))
    } else {
        item(cur) + items_from(s, i + 1, Seq::empty())
    }
}

/// An item on its own, or nothing where it is empty.
pub open spec fn item(cur: Seq<char>) -> Seq<Seq<char>> {
    if cur.len() > 0 {
        seq![cur]
    } else {
        Seq::empty()
    }
}

/// The items of a list value.
pub open spec fn items(raw: Seq<char>) -> Seq<Seq<char>> {
    items_from(raw, 0, Seq::empty())
}

/// An item with its commas doubled.
pub open spec fn escaped(s: Seq<char>) -> Seq<char> {
    replace_char(s, ',', ",,"@)
}

/// The list value that holds the items.
pub open spec fn listed(v: Seq<Seq<char>>) -> Seq<char> {
    join(v.map_values(|s: Seq<char>| escaped(s)), ","@)
}

/// Split on single commas; ",," is an escaped comma.
pub fn split_list(raw: &str) -> (r: Vec<String>)
    ensures
        texts(r@) == items(raw@),
{
    broadcast use texts_push;

    let c = chars_of(raw);
    let n: usize = c.len();
    let mut out: Vec<String> = Vec::new();
    let mut cur = String::new();
    let mut i: usize = 0;
    assert(texts(out@) + items(raw@) =~= items(raw@));
    while i < n
        invariant
            c@ == raw@,
            n == c@.len(),
            i <= n,
            items(raw@) == texts(out@) + items_from(raw@, i as int, cur@),
        decreases n - i,
    {
        if c[i] == ',' {
            if i < n - 1 && c[i + 1] == ',' {
                cur.push(',');
                i += 2;
                continue;
            }
            let ghost rest = items_from(raw@, i + 1, Seq::empty());
            let ghost before = texts(out@);
            if !cur.as_str().is_empty() {
                out.push(cur);
                assert(before + (item(cur@) + rest) =~= texts(out@) + rest);
            } else {
                assert(before + (item(cur@) + rest) =~= texts(out@) + rest);
            }
            cur = String::new();
        } else {
            cur.push(c[i]);
        }
        i += 1;
    }
    let ghost before = texts(out@);
    if !cur.as_str().is_empty() {
        out.push(cur);
    }
    assert(before + item(cur@) =~= texts(out@));
    out
}

pub fn join_list(list: &[String]) -> (r: String)
    ensures
        r@ == listed(texts(list@)),
{
    broadcast use texts_push;

    let mut v: Vec<String> = Vec::new();
    let mut i: usize = 0;
    let ghost esc = texts(list@).map_values(|s: Seq<char>| escaped(s));
    assert(texts(v@) =~= esc.take(0));
    while i < list.len()
        invariant
            i <= list@.len(),
            esc == texts(list@).map_values(|s: Seq<char>| escaped(s)),
            texts(v@) == esc.take(i as int),
        decreases list@.len() - i,
    {
        v.push(replaced(list[i].as_str(), ',', ",,"));
        i += 1;
        assert(esc.take(i as int) =~= esc.take(i - 1).push(esc[i - 1]));
    }
    assert(esc.take(i as int) =~= esc);
    join_with(v.as_slice(), ",")
}

/// The name of a definition: what stands before its first '='.
pub open spec fn define_name(d: Seq<char>) -> Seq<char> {
    before_first(d, "="@)
}

/// The list value with `define` at its end, and no other definition of its name.
pub open spec fn with_define(raw: Seq<char>, define: Seq<char>) -> Seq<char> {
    listed(
        items(raw).filter(|d: Seq<char>| define_name(d) != define_name(define)).push(define),
    )
}

fn ensure_define(raw: &str, define: &str) -> (r: String)
    ensures
        r@ == with_define(raw@, define@),
{
    broadcast use texts_push;

    let name = cut_before_first(define, "=");
    let ghost keep = |d: Seq<char>| define_name(d) != define_name(define@);
    let other = |d: &String| -> (b: bool)
        ensures
            b == (define_name(d@) != define_name(define@)),
        {
            let n = cut_before_first(d.as_str(), "=");
            !str_eq(n.as_str(), name.as_str())
        };
    let mut kept = keep_strings(split_list(raw).as_slice(), other, Ghost(keep));
    kept.push(define.to_owned());
    join_list(kept.as_slice())
}

/// A value, or the empty text.
pub open spec fn or_empty(v: Option<Seq<char>>) -> Seq<char> {
    match v {
        Some(t) => t,
        None => Seq::empty(),
    }
}

/// The sections with the provider's definition in a list of definitions.
pub open spec fn with_provider(m: Seq<Section>, section: Seq<char>) -> Seq<Section> {
    with_value(
        m,
        section,
        "PreprocessorDefinitions"@,
        with_define(
            or_empty(value_of(m, section, "PreprocessorDefinitions"@)),
            MV_PROVIDER_DEFINE@,
        ),
    )
}

/// ReShade.ini as it has to be: search paths and preset where none are set, and
/// the provider's definition.
pub open spec fn reshade_settings(m: Seq<Section>) -> Seq<Section> {
    let a = with_default(
        m,
        "GENERAL"@,
        "EffectSearchPaths"@,
        ".\\reshade-shaders\\Shaders\\**"@,
    );
    let b = with_default(
        a,
        "GENERAL"@,
        "TextureSearchPaths"@,
        ".\\reshade-shaders\\Textures\\**"@,
    );
    let c = with_default(b, "GENERAL"@, "PresetPath"@, ".\\ReShadePreset.ini"@);
    with_provider(c, "GENERAL"@)
}

/// Is it one of the two techniques that this tool enables?
pub open spec fn is_ours(t: Seq<char>) -> bool {
    t == PROVIDER_TECHNIQUE@ || t == FEED_TECHNIQUE@
}

/// The list value with the two techniques at its head, then the others.
pub open spec fn with_techniques(raw: Seq<char>) -> Seq<char> {
    listed(
        seq![PROVIDER_TECHNIQUE@, FEED_TECHNIQUE@] + items(raw).filter(|t: Seq<char>| !is_ours(t)),
    )
}

/// The list value without the two techniques.
pub open spec fn without_techniques(raw: Seq<char>) -> Seq<char> {
    listed(items(raw).filter(|t: Seq<char>| !is_ours(t)))
}

/// The preset as it has to be: the two techniques enabled, sorted first where
/// the preset sorts, and the provider's definition.
pub open spec fn preset_settings(m: Seq<Section>) -> Seq<Section> {
    let a = with_value(
        m,
        ""@,
        "Techniques"@,
        with_techniques(or_empty(value_of(m, ""@, "Techniques"@))),
    );
    let b = match value_of(a, ""@, "TechniqueSorting"@) {
        Some(raw) => with_value(a, ""@, "TechniqueSorting"@, with_techniques(raw)),
        None => a,
    };
    with_provider(b, ""@)
}

/// The sections with a list stripped of the two techniques, where it is there.
pub open spec fn key_without_techniques(m: Seq<Section>, key: Seq<char>) -> Seq<Section> {
    match value_of(m, ""@, key) {
        Some(raw) => with_value(m, ""@, key, without_techniques(raw)),
        None => m,
    }
}

/// An add-on file that this tool places.
pub open spec fn is_our_addon_file(file: Seq<char>) -> bool {
    ||| same_fold("renodx-dlss5.addon64"@, file)
    ||| same_fold("dlss5-feed.addon64"@, file)
    ||| same_fold("dlss5-bridge.addon64"@, file)
    ||| same_fold("dlss5-dx11-bridge.addon64"@, file)
}

/// A disabled add-on (`Name`, `Name@file` or `@file`) that this tool places.
pub open spec fn is_our_addon(e: Seq<char>) -> bool {
    ||| is_our_addon_file(or_empty(after_first(e, "@"@)))
    ||| starts(lower(before_first(e, "@"@)), "dlss 5"@)
}

/// The list of disabled add-ons without those that this tool places.
pub open spec fn without_our_addons(raw: Seq<char>) -> Seq<char> {
    listed(items(raw).filter(|e: Seq<char>| !is_our_addon(e)))
}

/// The settings with this tool's add-ons off the list of disabled ones; none where
/// there is no such list.
pub open spec fn addons_cleared(m: Seq<Section>) -> Option<Seq<Section>> {
    match value_of(m, "ADDON"@, "DisabledAddons"@) {
        Some(raw) => Some(with_value(m, "ADDON"@, "DisabledAddons"@, without_our_addons(raw))),
        None => None,
    }
}

/// The preset without the two techniques.
pub open spec fn techniques_removed(m: Seq<Section>) -> Seq<Section> {
    key_without_techniques(key_without_techniques(m, "Techniques"@), "TechniqueSorting"@)
}

fn force_provider(ini: &mut Ini, section: &str)
    ensures
        final(ini)@ == with_provider(old(ini)@, section@),
{
    let defs = match ini.get(section, "PreprocessorDefinitions") {
        Some(raw) => ensure_define(raw, MV_PROVIDER_DEFINE),
        None => {
            let none = String::new();
            ensure_define(none.as_str(), MV_PROVIDER_DEFINE)
        },
    };
    ini.set(section, "PreprocessorDefinitions", defs.as_str());
}

/// Update ReShade.ini: search paths and `PresetPath` by default, the provider's
/// definition in any case.
pub fn write_reshade_ini(old_text: Option<&str>) -> (r: String)
    ensures
        r@ == dumped(reshade_settings(loaded(opt_text(old_text)))),
{
    let mut ini = Ini::load(old_text);
    ini.set_default("GENERAL", "EffectSearchPaths", ".\\reshade-shaders\\Shaders\\**");
    ini.set_default("GENERAL", "TextureSearchPaths", ".\\reshade-shaders\\Textures\\**");
    ini.set_default("GENERAL", "PresetPath", ".\\ReShadePreset.ini");
    force_provider(&mut ini, "GENERAL");
    ini.dump()
}

fn our_technique(t: &str) -> (r: bool)
    ensures
        r == is_ours(t@),
{
    str_eq(t, PROVIDER_TECHNIQUE) || str_eq(t, FEED_TECHNIQUE)
}

fn other_techniques(raw: &str) -> (r: Vec<String>)
    ensures
        texts(r@) == items(raw@).filter(|t: Seq<char>| !is_ours(t)),
{
    let ghost keep = |t: Seq<char>| !is_ours(t);
    let other = |t: &String| -> (b: bool)
        ensures
            b == !is_ours(t@),
        { !our_technique(t.as_str()) };
    keep_strings(split_list(raw).as_slice(), other, Ghost(keep))
}

fn head_techniques(raw: &str) -> (r: String)
    ensures
        r@ == with_techniques(raw@),
{
    broadcast use texts_push;

    let mut list: Vec<String> = Vec::new();
    list.push(PROVIDER_TECHNIQUE.to_owned());
    list.push(FEED_TECHNIQUE.to_owned());
    let mut rest = other_techniques(raw);
    let ghost ours = texts(list@);
    assert(ours =~= seq![PROVIDER_TECHNIQUE@, FEED_TECHNIQUE@]);
    let ghost others = texts(rest@);
    let ghost both = list@ + rest@;
    list.append(&mut rest);
    assert(list@ =~= both);
    assert(texts(list@) =~= ours + others);
    join_list(list.as_slice())
}

/// Update ReShadePreset.ini: the provider, then the feed at the head of the
/// enabled list (techniques of the user stay after them), and the provider's
/// definition at preset level.
pub fn write_preset(old_text: Option<&str>) -> (r: String)
    ensures
        r@ == dumped(preset_settings(loaded(opt_text(old_text)))),
{
    let mut ini = Ini::load(old_text);
    let none = String::new();
    let techniques = match ini.get("", "Techniques") {
        Some(raw) => head_techniques(raw),
        None => head_techniques(none.as_str()),
    };
    ini.set("", "Techniques", techniques.as_str());
    let sorting = match ini.get("", "TechniqueSorting") {
        Some(raw) => Some(head_techniques(raw)),
        None => None,
    };
    if let Some(list) = sorting {
        ini.set("", "TechniqueSorting", list.as_str());
    }
    force_provider(&mut ini, "");
    ini.dump()
}

fn our_addon(e: &str) -> (r: bool)
    ensures
        r == is_our_addon(e@),
{
    let name = cut_before_first(e, "@");
    let file = match cut_after_first(e, "@") {
        Some(f) => f,
        None => String::new(),
    };
    eq_fold("renodx-dlss5.addon64", file.as_str()) || eq_fold("dlss5-feed.addon64", file.as_str())
        || eq_fold("dlss5-bridge.addon64", file.as_str()) || eq_fold(
        "dlss5-dx11-bridge.addon64",
        file.as_str(),
    ) || starts_with(lower_string(name.as_str()).as_str(), "dlss 5")
}

/// ReShade keeps a per-game `[ADDON] DisabledAddons=` list. A stray disable
/// hides the panel of an add-on, so an install drops ours from that list. There
/// is nothing to write where there is no file or no such list.
pub fn clear_disabled_addons(old_text: Option<&str>) -> (r: Option<String>)
    ensures
        opt_string(r) == match addons_cleared(loaded(opt_text(old_text))) {
            Some(m) => Some(dumped(m)),
            None => None,
        },
{
    let mut ini = Ini::load(old_text);
    let ghost keep = |e: Seq<char>| !is_our_addon(e);
    let kept = match ini.get("ADDON", "DisabledAddons") {
        Some(raw) => {
            let other = |e: &String| -> (b: bool)
                ensures
                    b == !is_our_addon(e@),
                { !our_addon(e.as_str()) };
            keep_strings(split_list(raw).as_slice(), other, Ghost(keep))
        },
        None => {
            return None;
        },
    };
    ini.set("ADDON", "DisabledAddons", join_list(kept.as_slice()).as_str());
    Some(ini.dump())
}

fn drop_techniques(ini: &mut Ini, key: &str)
    ensures
        final(ini)@ == key_without_techniques(old(ini)@, key@),
{
    let list = match ini.get("", key) {
        Some(raw) => join_list(other_techniques(raw).as_slice()),
        None => {
            return;
        },
    };
    ini.set("", key, list.as_str());
}

/// Drop the two techniques from a preset (games with DLSS of their own do not
/// use them). There is nothing to write where there is no preset.
pub fn remove_our_techniques(old_text: Option<&str>) -> (r: Option<String>)
    ensures
        opt_string(r) == match old_text {
            Some(t) => Some(dumped(techniques_removed(parsed(t@)))),
            None => None,
        },
{
    match old_text {
        Some(t) => {
            let mut ini = Ini::parse(t);
            drop_techniques(&mut ini, "Techniques");
            drop_techniques(&mut ini, "TechniqueSorting");
            Some(ini.dump())
        },
        None => None,
    }
}

proof fn unlines_push(ls: Seq<Seq<char>>, l: Seq<char>)
    ensures
        unlines(ls.push(l)) == unlines(ls) + l.push('\n'),
{
    assert(ls.push(l).drop_last() =~= ls);
}

proof fn unlines_empty(ls: Seq<Seq<char>>)
    ensures
        unlines(ls).len() == 0 <==> ls.len() == 0,
{
}

} // verus!
