use revengine_dlss5::json::Json;
use revengine_dlss5::renodx::{
    find_appid, foreign_mods, match_index, norm_title, parse_index, parse_wiki, plan_install, resolve,
    steam_appid, Index, Manifest, ManifestFacts, Mod, WikiRow,
};
use revengine_dlss5::tree::{Kind, Node};

fn file(name: &str) -> Node {
    Node { name: name.to_string(), kind: Kind::File, len: 1, bits: None, children: Vec::new() }
}

#[test]
fn norm_title_drops_marks_and_brackets() {
    assert_eq!(norm_title("Assassin’s Creed® Origins"), "assassinscreedorigins");
    assert_eq!(norm_title("Atlas Fallen (DX12)"), "atlasfallen");
    assert_eq!(
        norm_title("[Crimson Desert](https://github.com/x/discussions/535)"),
        "crimsondesert"
    );
}

#[test]
fn wiki_rows_parse_url_status_note() {
    let md = "| Name | Maintainer | Links | Status |\n| :--- | :-- | :-- | :-: |\n\
| Atlas Fallen (DX12) | Akuru | [![Snapshot](x)](https://clshortfuse.github.io/renodx/renodx-atlasfallen.addon64) | [:white_check_mark:](# \"Install ReShade in 'Atlas Fallen\\bin'. FSR2 causes crashes.\") |\n\
| Avowed | Ritsu | [![Nexus Mods](y)](https://www.nexusmods.com/avowed/mods/101) | :construction: |\n";
    let rows = parse_wiki(md);
    assert_eq!(rows.len(), 2);
    assert_eq!(
        rows[0].url.as_deref(),
        Some("https://clshortfuse.github.io/renodx/renodx-atlasfallen.addon64")
    );
    assert_eq!(rows[0].status, "stable");
    assert!(rows[0].note.starts_with("Install ReShade in"));
    assert_eq!(rows[1].url, None);
    assert_eq!(rows[1].status, "wip");
}

fn index() -> Index {
    parse_index(
        r#"{"games":[
            {"title":"Atlas Fallen (DX12)","steam_appid":1230530,"mods":[{"variant":null,"artifacts":[
                {"name":"renodx-atlasfallen.addon64","arch":"x64"}]}]},
            {"title":"Hollow Knight: Silksong","steam_appid":1030300,"deploy":{"game_exe":"Hollow Knight Silksong.exe"},
             "mods":[{"variant":null,"artifacts":[{"name":"renodx-hollowknight-silksong.addon64","arch":"x64"}]}]},
            {"title":"Alien: Isolation","steam_appid":214490,"mods":[{"variant":null,"artifacts":[
                {"name":"renodx-alienisolation.addon32","arch":"x86"}]}]}
        ]}"#,
    )
    .unwrap()
}

#[test]
fn match_by_appid_then_folder_then_exe_and_skips_x86_only() {
    let ix = index();
    assert_eq!(match_index(&ix, Some(1230530), &[]).unwrap().1, "renodx-atlasfallen.addon64");
    assert_eq!(
        match_index(&ix, None, &["Atlas Fallen".into()]).unwrap().1,
        "renodx-atlasfallen.addon64"
    );
    assert_eq!(
        match_index(&ix, None, &["Hollow Knight Silksong".into()]).unwrap().1,
        "renodx-hollowknight-silksong.addon64"
    );
    assert!(match_index(&ix, Some(214490), &[]).is_none());
    assert!(match_index(&ix, None, &["Doom".into()]).is_none());
}

#[test]
fn resolve_prefers_wiki_link_and_falls_back_to_snapshot() {
    let ix = index();
    let wiki = vec![WikiRow {
        title: "Atlas Fallen (DX12)".into(),
        url: Some("https://akuru-q.github.io/renodx/renodx-atlasfallen.addon64".into()),
        status: "stable",
        note: "bin folder".into(),
    }];
    let dir = r"C:\t\Atlas Fallen";
    let exe = r"C:\t\Atlas Fallen\AtlasFallen.exe";
    let m = resolve(&ix, &wiki, dir, exe, None).unwrap();
    assert_eq!(
        m.url.as_deref(),
        Some("https://akuru-q.github.io/renodx/renodx-atlasfallen.addon64")
    );
    assert_eq!(m.status, "stable");
    let m = resolve(&ix, &[], dir, exe, None).unwrap();
    assert_eq!(
        m.url.as_deref(),
        Some("https://github.com/clshortfuse/renodx/releases/download/snapshot/renodx-atlasfallen.addon64")
    );
    assert_eq!(m.status, "unknown");
}

#[test]
fn resolve_falls_back_to_wiki_only_rows() {
    let wiki = vec![WikiRow {
        title: "Dragon's Dogma 2".into(),
        url: Some("https://oopydoopy.github.io/renodx/renodx-dragonsdogma2.addon64".into()),
        status: "stable",
        note: "Delete shader.cache2".into(),
    }];
    let m = resolve(&index(), &wiki, r"C:\t\Dragons Dogma 2", r"C:\t\Dragons Dogma 2\DD2.exe", None)
        .unwrap();
    assert_eq!(m.file, "renodx-dragonsdogma2.addon64");
    assert_eq!(m.status, "stable");
    assert!(resolve(&index(), &wiki, r"C:\t\Nope", r"C:\t\Dragons Dogma 2\x.exe", None).is_none());
}

#[test]
fn steam_appid_reads_manifest_for_installdir() {
    let manifests = vec![Manifest {
        name: "appmanifest_1230530.acf".into(),
        text: Some(
            "\"AppState\"\n{\n\t\"appid\"\t\t\"1230530\"\n\t\"installdir\"\t\t\"Atlas Fallen\"\n}\n"
                .into(),
        ),
    }];
    assert_eq!(
        steam_appid(r"C:\t\steamapps\common\Atlas Fallen\bin", &manifests),
        Some(1230530)
    );
    assert_eq!(steam_appid(r"C:\t", &manifests), None);
    assert_eq!(steam_appid(r"C:\t\steamapps\common\Other", &manifests), None);
}

#[test]
fn the_first_manifest_of_the_folder_counts() {
    let f = |name: &str, dir: Option<&str>, id: Option<&str>| ManifestFacts {
        name: name.to_string(),
        installdir: dir.map(|s| s.to_string()),
        appid: id.map(|s| s.to_string()),
    };
    let all = [
        f("other.acf", Some("Game"), Some("1")),
        f("appmanifest_2.acf", None, Some("2")),
        f("APPMANIFEST_3.ACF", Some("GAME"), Some("3")),
        f("appmanifest_4.acf", Some("Game"), Some("4")),
    ];
    assert_eq!(find_appid("Game", &all), Some(3));
    assert_eq!(find_appid("Nope", &all), None);
    assert_eq!(find_appid("Game", &[f("appmanifest_5.acf", Some("Game"), None)]), None);
}

#[test]
fn foreign_mods_ignores_dlss5_and_ours() {
    let dir: Vec<Node> = [
        "renodx-dlss5.addon64",
        "renodx-dlssfix.addon64",
        "renodx-cp2077.addon64",
        "renodx-ff7rebirth.addon64",
    ]
    .iter()
    .map(|f| file(f))
    .collect();
    assert_eq!(
        foreign_mods(&dir, Some("renodx-cp2077.addon64")),
        vec!["renodx-ff7rebirth.addon64".to_string()]
    );
}

fn atlas(url: Option<&str>) -> Mod {
    Mod {
        title: "Atlas".into(),
        file: "renodx-atlas.addon64".into(),
        url: url.map(|u| u.to_string()),
        status: "wip",
        note: String::new(),
    }
}

#[test]
fn a_mod_is_planned_once_and_never_over_another() {
    let m = atlas(Some("https://x/renodx-atlas.addon64"));
    let p = plan_install(&m, &[]).unwrap();
    assert!(p.download);
    assert!(p.report.contains("renodx-atlas.addon64 (Atlas, in progress"));
    let p = plan_install(&m, &[file("renodx-atlas.addon64")]).unwrap();
    assert!(!p.download);
    assert!(plan_install(&m, &[file("renodx-other.addon64")]).is_err());
    assert!(plan_install(&atlas(None), &[]).is_err());
    assert_eq!(m.status_label(), "in progress — may have issues");
}

#[test]
fn json_is_read_level_by_level() {
    let j = Json::read(r#"{"a":{"b":[1,"x",18446744073709551615]},"n":-1}"#);
    let items = j.at("a").at("b").into_items();
    assert_eq!(items, vec!["1", "\"x\"", "18446744073709551615"]);
    assert_eq!(Json::read(&items[2]).number(), Some(u64::MAX));
    assert_eq!(Json::read(&items[1]).into_text().as_deref(), Some("x"));
    assert_eq!(j.at("n").number(), None);
    assert!(matches!(j.at("zzz"), Json::Null));
    assert!(matches!(Json::read("{"), Json::Invalid));
    assert!(parse_index("{").is_none());
}
