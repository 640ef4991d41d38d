use revengine_dlss5::reshade_ini::{
    clear_disabled_addons, join_list, remove_our_techniques, split_list, write_preset,
    write_reshade_ini, Ini,
};

fn list(v: &[&str]) -> Vec<String> {
    v.iter().map(|s| s.to_string()).collect()
}

fn techniques_ordered() -> Vec<String> {
    list(&["Lumenite_Kernel@lumenite_Kernel.fx", "DLSS5_Feed@DLSS5_Feed.fx"])
}

#[test]
fn split_join_roundtrip_with_escaped_comma() {
    let raw = join_list(&["A=1".into(), "B=x,y".into(), "C".into()]);
    assert_eq!(raw, "A=1,B=x,,y,C");
    assert_eq!(split_list(&raw), vec!["A=1", "B=x,y", "C"]);
    assert!(split_list("").is_empty());
}

#[test]
fn reshade_ini_fresh() {
    let ini = Ini::load(Some(&write_reshade_ini(None)));
    assert_eq!(ini.get("GENERAL", "EffectSearchPaths"), Some(r".\reshade-shaders\Shaders\**"));
    assert_eq!(ini.get("GENERAL", "TextureSearchPaths"), Some(r".\reshade-shaders\Textures\**"));
    assert_eq!(ini.get("GENERAL", "PresetPath"), Some(r".\ReShadePreset.ini"));
    assert_eq!(ini.get("GENERAL", "PreprocessorDefinitions"), Some("DLSS5_MV_PROVIDER=3"));
}

#[test]
fn reshade_ini_preserves_user_keys_and_replaces_define() {
    let old = "[GENERAL]\nEffectSearchPaths=.\\custom\\**\nPreprocessorDefinitions=FOO=1,DLSS5_MV_PROVIDER=5\n[INPUT]\nKeyOverlay=36,0,0,0\n";
    let ini = Ini::load(Some(&write_reshade_ini(Some(old))));
    assert_eq!(ini.get("GENERAL", "EffectSearchPaths"), Some(".\\custom\\**"));
    assert_eq!(
        split_list(ini.get("GENERAL", "PreprocessorDefinitions").unwrap()),
        vec!["FOO=1", "DLSS5_MV_PROVIDER=3"]
    );
    assert_eq!(ini.get("INPUT", "KeyOverlay"), Some("36,0,0,0"));
}

#[test]
fn remove_our_techniques_keeps_user_ones() {
    let mut ini = Ini::load(Some(&write_preset(None)));
    ini.set(
        "",
        "Techniques",
        "Lumenite_Kernel@lumenite_Kernel.fx,DLSS5_Feed@DLSS5_Feed.fx,Clarity@Clarity.fx",
    );
    let after = remove_our_techniques(Some(&ini.dump())).unwrap();
    assert_eq!(Ini::load(Some(&after)).get("", "Techniques"), Some("Clarity@Clarity.fx"));
}

#[test]
fn preset_fresh() {
    let ini = Ini::load(Some(&write_preset(None)));
    assert_eq!(split_list(ini.get("", "Techniques").unwrap()), techniques_ordered());
    assert_eq!(ini.get("", "PreprocessorDefinitions"), Some("DLSS5_MV_PROVIDER=3"));
    assert!(ini.get("", "TechniqueSorting").is_none());
}

#[test]
fn preset_keeps_provider_above_feed_and_user_techniques() {
    let old = "Techniques=DLSS5_Feed@DLSS5_Feed.fx,Clarity@Clarity.fx\nTechniqueSorting=Clarity@Clarity.fx,DLSS5_Feed@DLSS5_Feed.fx\n[Clarity.fx]\nStrength=0.5\n";
    let text = write_preset(Some(old));
    let ini = Ini::load(Some(&text));
    assert_eq!(
        split_list(ini.get("", "Techniques").unwrap()),
        vec![
            "Lumenite_Kernel@lumenite_Kernel.fx",
            "DLSS5_Feed@DLSS5_Feed.fx",
            "Clarity@Clarity.fx"
        ]
    );
    assert_eq!(
        &split_list(ini.get("", "TechniqueSorting").unwrap())[..2],
        techniques_ordered().as_slice()
    );
    assert_eq!(ini.get("Clarity.fx", "Strength"), Some("0.5"));
    assert!(text.starts_with("Techniques="), "root keys must precede sections: {text}");
}

#[test]
fn what_is_set_is_read_back_and_nothing_else_changes() {
    let mut ini = Ini::parse("[A]\nx=1\ny=2\n[B]\nx=3\n");
    ini.set("A", "x", "9");
    assert_eq!(ini.get("A", "x"), Some("9"));
    assert_eq!(ini.get("A", "y"), Some("2"));
    assert_eq!(ini.get("B", "x"), Some("3"));
    ini.set_default("A", "y", "7");
    assert_eq!(ini.get("A", "y"), Some("2"));
    ini.set_default("C", "z", "7");
    assert_eq!(ini.get("C", "z"), Some("7"));
}

#[test]
fn a_dumped_file_reads_as_it_was() {
    let mut ini = Ini::parse("");
    ini.set("", "Techniques", "A,B");
    ini.set("GENERAL", "Path", ".\\x");
    ini.set("GENERAL", "Other", "1");
    let text = ini.dump();
    assert_eq!(Ini::parse(&text).dump(), text);
    assert_eq!(Ini::parse(&text).get("GENERAL", "Path"), Some(".\\x"));
    assert_eq!(Ini::parse(&text).get("", "Techniques"), Some("A,B"));
}

#[test]
fn writing_the_settings_again_changes_nothing() {
    let once = write_reshade_ini(Some("[GENERAL]\nPreprocessorDefinitions=FOO=1\n"));
    assert_eq!(write_reshade_ini(Some(&once)), once);
    let once = write_preset(Some("Techniques=Clarity@Clarity.fx\n"));
    assert_eq!(write_preset(Some(&once)), once);
}

#[test]
fn lists_with_commas_survive() {
    for v in [vec!["a,b", "c"], vec!["x,,y"], vec!["one"]] {
        let v = list(&v);
        assert_eq!(split_list(&join_list(&v)), v);
    }
}

#[test]
fn techniques_are_enabled_and_then_removed() {
    let on = write_preset(None);
    let off = remove_our_techniques(Some(&on)).unwrap();
    let ini = Ini::load(Some(&off));
    assert_eq!(split_list(ini.get("", "Techniques").unwrap()), Vec::<String>::new());
    assert!(remove_our_techniques(None).is_none());
}

#[test]
fn our_addons_are_not_left_disabled() {
    let old = "[ADDON]\nDisabledAddons=DLSS 5 Neural Rendering,Other\n";
    let new = clear_disabled_addons(Some(old)).unwrap();
    let ini = Ini::load(Some(&new));
    assert_eq!(split_list(ini.get("ADDON", "DisabledAddons").unwrap()), vec!["Other"]);
    assert!(clear_disabled_addons(None).is_none());
}

#[test]
fn a_missing_file_has_the_root_section() {
    let ini = Ini::load(None);
    assert_eq!(ini.sections, vec![(String::new(), Vec::new())]);
    assert_eq!(Ini::default(), ini);
    assert_eq!(ini.dump(), "");
    assert_eq!(Ini::parse("[A]\nb=1\n").sections[0].0, "");
}

#[test]
fn white_space_within_a_list_is_kept() {
    let once = write_reshade_ini(Some("[GENERAL]\nPreprocessorDefinitions=A=1, B=2\n"));
    assert_eq!(
        Ini::parse(&once).get("GENERAL", "PreprocessorDefinitions"),
        Some("A=1, B=2,DLSS5_MV_PROVIDER=3")
    );
    assert_eq!(write_reshade_ini(Some(&once)), once);
    let once = write_preset(Some("Techniques=A@a.fx, B@b.fx\n"));
    assert_eq!(write_preset(Some(&once)), once);
    // At the head of the list it is gone when the list is read again; the other
    // values are as they were.
    let odd = "[GENERAL]\nPreprocessorDefinitions=DLSS5_MV_PROVIDER=1, a\n[X]\ny=z\n";
    let once = write_reshade_ini(Some(odd));
    assert_eq!(Ini::parse(&once).get("X", "y"), Some("z"));
    assert_ne!(write_reshade_ini(Some(&once)), once);
}
