//! What writing the settings leaves as it was.
use vstd::prelude::*;

use crate::ini_file_laws::{
    law_parse_of_dump, loaded_writable, settings_made, trimmed_entries, trimmed_values,
    value_one_line,
};
use crate::ini_laws::{entry_from_first, law_define, law_set_keeps_others, section_from_first};
use crate::reshade_ini::{
    define_name, dumped, entry_from, items, key_without_techniques, loaded, or_empty, parsed,
    preset_settings, reshade_settings, section_from, value_of, with_default, with_define,
    with_techniques, with_value, without_techniques, Entry, Section, MV_PROVIDER_DEFINE,
};
use crate::str_laws::{tight, trim_tight};
use crate::strs::{same_fold, trim};

verus! {

proof fn section_fold(m: Seq<Section>, a: Seq<char>, b: Seq<char>, i: int)
    requires
        same_fold(a, b),
    ensures
        section_from(m, a, i) == section_from(m, b, i),
    decreases m.len() - i,
{
    if 0 <= i < m.len() && !same_fold(m[i].0, a) {
        section_fold(m, a, b, i + 1);
    }
}

proof fn entry_fold(kv: Seq<Entry>, a: Seq<char>, b: Seq<char>, i: int)
    requires
        same_fold(a, b),
    ensures
        entry_from(kv, a, i) == entry_from(kv, b, i),
    decreases kv.len() - i,
{
    if 0 <= i < kv.len() && !same_fold(kv[i].0, a) {
        entry_fold(kv, a, b, i + 1);
    }
}

/// Names are the same whatever their case.
pub proof fn law_case_aside(
    m: Seq<Section>,
    section: Seq<char>,
    key: Seq<char>,
    section2: Seq<char>,
    key2: Seq<char>,
)
    requires
        same_fold(section, section2),
        same_fold(key, key2),
    ensures
        value_of(m, section, key) == value_of(m, section2, key2),
{
    section_fold(m, section, section2, 0);
    if let Some(i) = section_from(m, section, 0) {
        entry_fold(m[i].1, key, key2, 0);
    }
}

/// A default takes no value away.
proof fn default_keeps(
    m: Seq<Section>,
    section: Seq<char>,
    key: Seq<char>,
    value: Seq<char>,
    section2: Seq<char>,
    key2: Seq<char>,
)
    requires
        value_of(m, section2, key2) is Some,
    ensures
        value_of(with_default(m, section, key, value), section2, key2) == value_of(
            m,
            section2,
            key2,
        ),
{
    if value_of(m, section, key) is None {
        if same_fold(section, section2) && same_fold(key, key2) {
            law_case_aside(m, section, key, section2, key2);
        }
        law_set_keeps_others(m, section, key, value, section2, key2);
    }
}

/// A value without the white space around it.
pub open spec fn opt_trim(v: Option<Seq<char>>) -> Option<Seq<char>> {
    match v {
        Some(t) => Some(trim(t)),
        None => None,
    }
}

/// Trimming each value trims what is read.
proof fn value_trimmed(m: Seq<Section>, section: Seq<char>, key: Seq<char>)
    ensures
        value_of(trimmed_values(m), section, key) == opt_trim(value_of(m, section, key)),
{
    let w = trimmed_values(m);
    section_names(m, section, 0);
    section_from_first(m, section, 0);
    if let Some(i) = section_from(m, section, 0) {
        let kv = m[i].1;
        assert(w[i].1 == trimmed_entries(kv));
        entry_names(kv, key, 0);
        entry_from_first(kv, key, 0);
    }
}

proof fn section_names(m: Seq<Section>, section: Seq<char>, i: int)
    requires
        0 <= i,
    ensures
        section_from(trimmed_values(m), section, i) == section_from(m, section, i),
    decreases m.len() - i,
{
    if i < m.len() {
        assert(trimmed_values(m)[i].0 == m[i].0);
        section_names(m, section, i + 1);
    }
}

proof fn entry_names(kv: Seq<Entry>, key: Seq<char>, i: int)
    requires
        0 <= i,
    ensures
        entry_from(trimmed_entries(kv), key, i) == entry_from(kv, key, i),
    decreases kv.len() - i,
{
    if i < kv.len() {
        assert(trimmed_entries(kv)[i].0 == kv[i].0);
        entry_names(kv, key, i + 1);
    }
}

/// Writing the settings to ReShade.ini keeps every value that the user has, but
/// for the list of definitions, which keeps every definition but the provider's;
/// and the file that is written gives these values back.
pub proof fn law_settings_kept(text: Option<Seq<char>>, section: Seq<char>, key: Seq<char>)
    requires
        value_of(loaded(text), section, key) is Some,
        !(same_fold("GENERAL"@, section) && same_fold("PreprocessorDefinitions"@, key)),
    ensures
        value_of(reshade_settings(loaded(text)), section, key) == value_of(
            loaded(text),
            section,
            key,
        ),
        value_of(parsed(dumped(reshade_settings(loaded(text)))), section, key) == value_of(
            loaded(text),
            section,
            key,
        ),
{
    let m = loaded(text);
    let g = "GENERAL"@;
    let e = "EffectSearchPaths"@;
    let t = "TextureSearchPaths"@;
    let p = "PresetPath"@;
    let d = "PreprocessorDefinitions"@;
    let x = ".\\reshade-shaders\\Shaders\\**"@;
    let y = ".\\reshade-shaders\\Textures\\**"@;
    let z = ".\\ReShadePreset.ini"@;
    let a = with_default(m, g, e, x);
    default_keeps(m, g, e, x, section, key);
    let b = with_default(a, g, t, y);
    default_keeps(a, g, t, y, section, key);
    let c = with_default(b, g, p, z);
    default_keeps(b, g, p, z, section, key);
    let v = with_define(or_empty(value_of(c, g, d)), MV_PROVIDER_DEFINE@);
    law_set_keeps_others(c, g, d, v, section, key);
    let s = reshade_settings(m);
    assert(s == with_value(c, g, d, v));
    loaded_writable(text);
    settings_made(m);
    law_parse_of_dump(s);
    value_trimmed(s, section, key);
    value_one_line(m, section, key);
    trim_tight(value_of(m, section, key)->0);
}

/// The definitions in ReShade.ini afterwards: the others in their order, then
/// the provider's, as long as the list does not begin with white space.
pub proof fn law_settings_define(text: Option<Seq<char>>)
    requires
        tight(
            with_define(
                or_empty(value_of(loaded(text), "GENERAL"@, "PreprocessorDefinitions"@)),
                MV_PROVIDER_DEFINE@,
            ),
        ),
    ensures
        ({
            let old = or_empty(value_of(loaded(text), "GENERAL"@, "PreprocessorDefinitions"@));
            let new = or_empty(
                value_of(
                    parsed(dumped(reshade_settings(loaded(text)))),
                    "GENERAL"@,
                    "PreprocessorDefinitions"@,
                ),
            );
            items(new) == items(old).filter(
                |d: Seq<char>| define_name(d) != define_name(MV_PROVIDER_DEFINE@),
            ).push(MV_PROVIDER_DEFINE@)
        }),
{
    reveal_strlit("DLSS5_MV_PROVIDER=3");
    let m = loaded(text);
    loaded_writable(text);
    settings_made(m);
    law_parse_of_dump(reshade_settings(m));
    law_define(
        or_empty(value_of(m, "GENERAL"@, "PreprocessorDefinitions"@)),
        MV_PROVIDER_DEFINE@,
    );
}

/// Is it one of the three lists of a preset that this tool changes?
pub open spec fn is_changed(section: Seq<char>, key: Seq<char>) -> bool {
    same_fold(""@, section) && (same_fold("Techniques"@, key) || same_fold(
        "TechniqueSorting"@,
        key,
    ) || same_fold("PreprocessorDefinitions"@, key))
}

/// Enabling the techniques keeps everything in the preset but the three lists,
/// and so does disabling them.
pub proof fn law_preset_kept(m: Seq<Section>, section: Seq<char>, key: Seq<char>)
    requires
        !is_changed(section, key),
    ensures
        value_of(preset_settings(m), section, key) == value_of(m, section, key),
        value_of(
            key_without_techniques(
                key_without_techniques(m, "Techniques"@),
                "TechniqueSorting"@,
            ),
            section,
            key,
        ) == value_of(m, section, key),
{
    let t = "Techniques"@;
    let o = "TechniqueSorting"@;
    let d = "PreprocessorDefinitions"@;
    let a = with_value(m, ""@, t, with_techniques(or_empty(value_of(m, ""@, t))));
    law_set_keeps_others(
        m,
        ""@,
        t,
        with_techniques(or_empty(value_of(m, ""@, t))),
        section,
        key,
    );
    let b = match value_of(a, ""@, o) {
        Some(raw) => with_value(a, ""@, o, with_techniques(raw)),
        None => a,
    };
    if let Some(raw) = value_of(a, ""@, o) {
        law_set_keeps_others(a, ""@, o, with_techniques(raw), section, key);
    }
    let v = with_define(or_empty(value_of(b, ""@, d)), MV_PROVIDER_DEFINE@);
    law_set_keeps_others(b, ""@, d, v, section, key);
    dropped_keeps(m, t, section, key);
    dropped_keeps(key_without_techniques(m, t), o, section, key);
}

proof fn dropped_keeps(m: Seq<Section>, list: Seq<char>, section: Seq<char>, key: Seq<char>)
    requires
        !(same_fold(""@, section) && same_fold(list, key)),
    ensures
        value_of(key_without_techniques(m, list), section, key) == value_of(m, section, key),
{
    if let Some(raw) = value_of(m, ""@, list) {
        law_set_keeps_others(
            m,
            ""@,
            list,
            without_techniques(raw),
            section,
            key,
        );
    }
}

} // verus!
