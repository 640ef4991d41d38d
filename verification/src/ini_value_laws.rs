//! What the settings hold once they are written.
use vstd::prelude::*;

use crate::chars::lower;
use crate::ini_laws::{law_set_keeps_others, law_set_then_get};
use crate::reshade_ini::{
    addons_cleared, is_our_addon, key_without_techniques, or_empty, preset_settings, read_lines,
    reshade_settings, techniques_removed, value_of, with_default, with_define, with_techniques,
    with_value, without_our_addons, without_techniques, MV_PROVIDER_DEFINE, Section,
};
use crate::str_laws::split_char_once;
use crate::strs::{after_first, before_first, same_fold, starts, trim};

verus! {

proof fn unlike(a: Seq<char>, b: Seq<char>)
    requires
        a.len() != b.len(),
    ensures
        !same_fold(a, b),
{
    assert(lower(a).len() == a.len());
    assert(lower(b).len() == b.len());
}

proof fn default_set(
    m: Seq<Section>,
    section: Seq<char>,
    key: Seq<char>,
    value: Seq<char>,
    other: Seq<char>,
)
    requires
        !same_fold(key, other),
    ensures
        value_of(with_default(m, section, key, value), section, key) == (match value_of(
            m,
            section,
            key,
        ) {
            Some(v) => Some(v),
            None => Some(value),
        }),
        value_of(with_default(m, section, key, value), section, other) == value_of(
            m,
            section,
            other,
        ),
{
    law_set_then_get(m, section, key, value);
    law_set_keeps_others(m, section, key, value, section, other);
}

/// A path that ReShade.ini does not set is set to the one beside the exe, and one
/// that it sets stays; the definitions end with the provider's.
#[verifier::rlimit(40)]
pub proof fn law_paths_set(m: Seq<Section>)
    ensures
        ({
            let s = reshade_settings(m);
            let or = |key: Seq<char>, value: Seq<char>|
                match value_of(m, "GENERAL"@, key) {
                    Some(v) => Some(v),
                    None => Some(value),
                };
            &&& value_of(s, "GENERAL"@, "EffectSearchPaths"@) == or(
                "EffectSearchPaths"@,
                ".\\reshade-shaders\\Shaders\\**"@,
            )
            &&& value_of(s, "GENERAL"@, "TextureSearchPaths"@) == or(
                "TextureSearchPaths"@,
                ".\\reshade-shaders\\Textures\\**"@,
            )
            &&& value_of(s, "GENERAL"@, "PresetPath"@) == or(
                "PresetPath"@,
                ".\\ReShadePreset.ini"@,
            )
            &&& value_of(s, "GENERAL"@, "PreprocessorDefinitions"@) == Some(
                with_define(
                    or_empty(value_of(m, "GENERAL"@, "PreprocessorDefinitions"@)),
                    "DLSS5_MV_PROVIDER=3"@,
                ),
            )
        }),
{
    reveal_strlit("EffectSearchPaths");
    reveal_strlit("TextureSearchPaths");
    reveal_strlit("PresetPath");
    reveal_strlit("PreprocessorDefinitions");
    let g = "GENERAL"@;
    let e = "EffectSearchPaths"@;
    let t = "TextureSearchPaths"@;
    let p = "PresetPath"@;
    let d = "PreprocessorDefinitions"@;
    let x = ".\\reshade-shaders\\Shaders\\**"@;
    let y = ".\\reshade-shaders\\Textures\\**"@;
    let z = ".\\ReShadePreset.ini"@;
    unlike(e, t);
    unlike(e, p);
    unlike(e, d);
    unlike(t, e);
    unlike(t, p);
    unlike(t, d);
    unlike(p, e);
    unlike(p, t);
    unlike(p, d);
    unlike(d, e);
    unlike(d, t);
    unlike(d, p);
    let a = with_default(m, g, e, x);
    let b = with_default(a, g, t, y);
    let c = with_default(b, g, p, z);
    default_set(m, g, e, x, t);
    default_set(m, g, e, x, p);
    default_set(m, g, e, x, d);
    default_set(a, g, t, y, e);
    default_set(a, g, t, y, p);
    default_set(a, g, t, y, d);
    default_set(b, g, p, z, e);
    default_set(b, g, p, z, t);
    default_set(b, g, p, z, d);
    let v = with_define(or_empty(value_of(c, g, d)), MV_PROVIDER_DEFINE@);
    law_set_then_get(c, g, d, v);
    law_set_keeps_others(c, g, d, v, g, e);
    law_set_keeps_others(c, g, d, v, g, t);
    law_set_keeps_others(c, g, d, v, g, p);
}

/// The preset enables the two techniques; where it sorts its techniques the two
/// are sorted first as well, and where it does not it still does not.
pub proof fn law_preset_made(m: Seq<Section>)
    ensures
        ({
            let s = preset_settings(m);
            &&& value_of(s, ""@, "Techniques"@) == Some(
                with_techniques(or_empty(value_of(m, ""@, "Techniques"@))),
            )
            &&& value_of(m, ""@, "TechniqueSorting"@) is Some ==> value_of(
                s,
                ""@,
                "TechniqueSorting"@,
            ) == Some(with_techniques(value_of(m, ""@, "TechniqueSorting"@)->0))
            &&& value_of(m, ""@, "TechniqueSorting"@) is None ==> value_of(
                s,
                ""@,
                "TechniqueSorting"@,
            ) is None
            &&& value_of(s, ""@, "PreprocessorDefinitions"@) == Some(
                with_define(
                    or_empty(value_of(m, ""@, "PreprocessorDefinitions"@)),
                    "DLSS5_MV_PROVIDER=3"@,
                ),
            )
        }),
{
    reveal_strlit("Techniques");
    reveal_strlit("TechniqueSorting");
    reveal_strlit("PreprocessorDefinitions");
    let r = ""@;
    let t = "Techniques"@;
    let o = "TechniqueSorting"@;
    let d = "PreprocessorDefinitions"@;
    unlike(t, o);
    unlike(t, d);
    unlike(o, t);
    unlike(o, d);
    unlike(d, t);
    unlike(d, o);
    let v = with_techniques(or_empty(value_of(m, r, t)));
    let a = with_value(m, r, t, v);
    law_set_then_get(m, r, t, v);
    law_set_keeps_others(m, r, t, v, r, o);
    law_set_keeps_others(m, r, t, v, r, d);
    let b = match value_of(a, r, o) {
        Some(raw) => with_value(a, r, o, with_techniques(raw)),
        None => a,
    };
    if let Some(raw) = value_of(a, r, o) {
        law_set_then_get(a, r, o, with_techniques(raw));
        law_set_keeps_others(a, r, o, with_techniques(raw), r, t);
        law_set_keeps_others(a, r, o, with_techniques(raw), r, d);
    }
    let w = with_define(or_empty(value_of(b, r, d)), MV_PROVIDER_DEFINE@);
    law_set_then_get(b, r, d, w);
    law_set_keeps_others(b, r, d, w, r, t);
    law_set_keeps_others(b, r, d, w, r, o);
}

/// Removing the two techniques takes them out of both lists, as far as these are
/// there.
pub proof fn law_techniques_gone(m: Seq<Section>)
    ensures
        ({
            let s = techniques_removed(m);
            let t = value_of(m, ""@, "Techniques"@);
            let o = value_of(m, ""@, "TechniqueSorting"@);
            &&& t is Some ==> value_of(s, ""@, "Techniques"@) == Some(without_techniques(t->0))
            &&& t is None ==> value_of(s, ""@, "Techniques"@) is None
            &&& o is Some ==> value_of(s, ""@, "TechniqueSorting"@) == Some(
                without_techniques(o->0),
            )
            &&& o is None ==> value_of(s, ""@, "TechniqueSorting"@) is None
        }),
{
    reveal_strlit("Techniques");
    reveal_strlit("TechniqueSorting");
    let r = ""@;
    let t = "Techniques"@;
    let o = "TechniqueSorting"@;
    unlike(t, o);
    unlike(o, t);
    let a = key_without_techniques(m, t);
    if let Some(raw) = value_of(m, r, t) {
        law_set_then_get(m, r, t, without_techniques(raw));
        law_set_keeps_others(m, r, t, without_techniques(raw), r, o);
    }
    if let Some(raw) = value_of(a, r, o) {
        law_set_then_get(a, r, o, without_techniques(raw));
        law_set_keeps_others(a, r, o, without_techniques(raw), r, t);
    }
}

/// The list of disabled add-ons loses this tool's, where there is such a list, and
/// nothing else changes; without one there is nothing to write.
pub proof fn law_addons_enabled(m: Seq<Section>, section: Seq<char>, key: Seq<char>)
    ensures
        addons_cleared(m) is Some <==> value_of(m, "ADDON"@, "DisabledAddons"@) is Some,
        addons_cleared(m) matches Some(s) ==> value_of(s, "ADDON"@, "DisabledAddons"@) == Some(
            without_our_addons(value_of(m, "ADDON"@, "DisabledAddons"@)->0),
        ),
        addons_cleared(m) matches Some(s) ==> (!(same_fold("ADDON"@, section) && same_fold(
            "DisabledAddons"@,
            key,
        )) ==> value_of(s, section, key) == value_of(m, section, key)),
{
    if let Some(raw) = value_of(m, "ADDON"@, "DisabledAddons"@) {
        let v = without_our_addons(raw);
        law_set_then_get(m, "ADDON"@, "DisabledAddons"@, v);
        if !(same_fold("ADDON"@, section) && same_fold("DisabledAddons"@, key)) {
            law_set_keeps_others(m, "ADDON"@, "DisabledAddons"@, v, section, key);
        }
    }
}

/// A disabled add-on is this tool's by its file, case aside, whatever it is called,
/// or by a name that begins with "DLSS 5"; no other is.
#[verifier::rlimit(40)]
pub proof fn law_our_addon(name: Seq<char>, file: Seq<char>)
    requires
        !name.contains('@'),
    ensures
        is_our_addon(name.push('@') + file) <==> {
            ||| starts(lower(name), "dlss 5"@)
            ||| same_fold("renodx-dlss5.addon64"@, file)
            ||| same_fold("dlss5-feed.addon64"@, file)
            ||| same_fold("dlss5-bridge.addon64"@, file)
            ||| same_fold("dlss5-dx11-bridge.addon64"@, file)
        },
        is_our_addon(name) <==> starts(lower(name), "dlss 5"@),
{
    reveal_strlit("@");
    reveal_strlit("renodx-dlss5.addon64");
    reveal_strlit("dlss5-feed.addon64");
    reveal_strlit("dlss5-bridge.addon64");
    reveal_strlit("dlss5-dx11-bridge.addon64");
    let e = name.push('@') + file;
    assert("@"@ =~= seq!['@']);
    split_char_once(e, '@');
    split_char_once(name, '@');
    assert(e[name.len() as int] == '@');
    match after_first(e, "@"@) {
        Some(b) => {
            let a = before_first(e, "@"@);
            assert(e == a.push('@') + b);
            if a.len() < name.len() {
                assert(e[a.len() as int] == '@');
                assert(name[a.len() as int] == '@');
            } else if a.len() > name.len() {
                assert(a[name.len() as int] == '@');
            }
            assert(a =~= name) by {
                assert forall|i: int| 0 <= i < a.len() implies a[i] == name[i] by {
                    assert(e[i] == a[i]);
                }
            }
            assert(b =~= file) by {
                assert forall|i: int| 0 <= i < b.len() implies b[i] == file[i] by {
                    assert(e[a.len() + 1 + i] == b[i]);
                }
            }
        },
        None => {
            assert(e.contains('@'));
        },
    }
    let none = Seq::<char>::empty();
    if after_first(name, "@"@) is Some {
        let a = before_first(name, "@"@);
        assert(name[a.len() as int] == '@');
        assert(name.contains('@'));
    }
    unlike("renodx-dlss5.addon64"@, none);
    unlike("dlss5-feed.addon64"@, none);
    unlike("dlss5-bridge.addon64"@, none);
    unlike("dlss5-dx11-bridge.addon64"@, none);
}

/// An empty line and a comment change nothing that is read.
pub proof fn law_comments(ls: Seq<Seq<char>>, line: Seq<char>)
    requires
        trim(line).len() == 0 || trim(line)[0] == ';' || trim(line)[0] == '#',
    ensures
        read_lines(ls.push(line)) == read_lines(ls),
{
    assert(ls.push(line).drop_last() =~= ls);
}

} // verus!
