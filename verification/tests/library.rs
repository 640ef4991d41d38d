use revengine_dlss5::exes::Target;
use revengine_dlss5::library::{
    added_games, added_list_file, added_paths, all_roots, art_dir, art_step, details_url, epic_game,
    forget_added, gog_game, header_image, icon_pixels, in_content, is_epic_manifest, make_epic, parse_acf, parse_epic_item,
    parse_gaming_root, parse_microsoft_game_config, poster_cache_dir, poster_file, poster_url,
    registry_text, remember_added, scan, sort_and_dedupe, steam_candidates, steam_entry,
    steam_game, steam_is_tool, steam_library_roots, steam_poster, xbox_game, Acf, AddedPath, ArtStep, Game,
    Poster, Store, XboxConfig,
};
use revengine_dlss5::tree::{Kind, Node};

fn game(title: &str, store: Store, dir: &str, installed: i128) -> Game {
    Game {
        title: title.to_string(),
        store,
        dir: dir.to_string(),
        exe_hint: None,
        installed,
        poster: Poster::SteamCdn(1),
    }
}

fn titles(v: &[Game]) -> Vec<&str> {
    v.iter().map(|g| g.title.as_str()).collect()
}

fn node(name: &str, kind: Kind, children: Vec<Node>) -> Node {
    Node { name: name.to_string(), kind, len: 0, bits: None, children }
}

#[test]
fn steam_vdf_and_acf_parse() {
    let vdf = "\"libraryfolders\"\n{\n\t\"0\"\n\t{\n\t\t\"path\"\t\t\"C:\\\\Program Files (x86)\\\\Steam\"\n\t}\n\t\"1\"\n\t{\n\t\t\"path\"\t\t\"D:\\\\SteamLibrary\"\n\t}\n}\n";
    assert_eq!(
        steam_library_roots(vdf),
        vec![r"C:\Program Files (x86)\Steam", r"D:\SteamLibrary"]
    );
    let acf = "\"AppState\"\n{\n\t\"appid\"\t\t\"1903340\"\n\t\"name\"\t\t\"Clair Obscur: Expedition 33\"\n\t\"installdir\"\t\t\"Expedition 33\"\n}\n";
    let a = parse_acf(acf).unwrap();
    assert_eq!(a.appid, 1903340);
    assert_eq!(a.installdir, "Expedition 33");
    assert!(!steam_is_tool(&a));
    assert!(steam_is_tool(&Acf {
        appid: 228980,
        name: "Steamworks Common Redistributables".into(),
        installdir: "x".into()
    }));
}

#[test]
fn epic_item_parse() {
    let j = r#"{"bIsApplication":true,"bIsIncompleteInstall":false,"DisplayName":"Nuclear Throne","InstallLocation":"D:\\Epic Games\\NuclearThrone","LaunchExecutable":"nuclearthrone.exe"}"#;
    let (t, d, e) = parse_epic_item(j).unwrap();
    assert_eq!(t, "Nuclear Throne");
    assert_eq!(d, r"D:\Epic Games\NuclearThrone");
    assert_eq!(e.as_deref(), Some(r"D:\Epic Games\NuclearThrone\nuclearthrone.exe"));
    assert!(parse_epic_item(
        r#"{"bIsApplication":false,"DisplayName":"UE","InstallLocation":"x"}"#
    )
    .is_none());
}

/// #28: a path picked by hand survives a restart, and Forget removes it
/// whether the card knows the exe or only the folder.
#[test]
fn added_games_round_trip() {
    let tmp = r"C:\Temp\revengine-dlss5-test-added";
    let exe = r"C:\Temp\revengine-dlss5-test-added\Bin\Game.exe";
    let at = |path: &str, kind: Target| AddedPath {
        path: path.to_string(),
        kind,
        exe: None,
        installed: 5,
    };
    let list = added_games(&[at(tmp, Target::Folder), at(exe, Target::File)]);
    assert_eq!(list.len(), 2);
    assert!(list.iter().all(|g| g.store == Store::Manual));
    assert_eq!(list[0].title, "revengine-dlss5-test-added");
    assert_eq!(list[1].title, "Game");
    assert_eq!(list[1].dir, r"C:\Temp\revengine-dlss5-test-added\Bin");
    assert_eq!(list[1].exe_hint.as_deref(), Some(exe));

    // A path that no longer exists is dropped, not shown as a dead card.
    assert!(added_games(&[at(r"C:\Temp\revengine-dlss5-test-added\gone", Target::Nothing)])
        .is_empty());

    // The list survives: a path is written once, and Forget takes out the exe
    // by its folder.
    let one = remember_added("", exe).unwrap();
    assert_eq!(added_paths(&one), vec![exe]);
    assert!(remember_added(&one, &exe.to_uppercase()).is_none());
    let two = remember_added(&one, tmp).unwrap();
    assert_eq!(added_paths(&two), vec![exe, tmp]);
    let left = forget_added(&two, r"C:\Temp\revengine-dlss5-test-added\Bin");
    assert_eq!(added_paths(&left), vec![tmp]);
    assert!(added_paths(&forget_added(&left, tmp)).is_empty());
}

#[test]
fn xbox_gaming_root_and_config_parse() {
    let mut b = b"RGBX\x01\x00\x00\x00".to_vec();
    for u in "XboxGames".encode_utf16() {
        b.extend_from_slice(&u.to_le_bytes());
    }
    b.extend_from_slice(&[0, 0]);
    assert_eq!(parse_gaming_root(&b).as_deref(), Some("XboxGames"));
    assert_eq!(parse_gaming_root(b"nope"), None);
    let xml = r#"<Game configVersion="1"><ExecutableList><Executable Name="ExampleGame.exe" Id="Game"/></ExecutableList>
<ShellVisuals DefaultDisplayName="Example Game" Square150x150Logo="GraphicsLogo.png" StoreLogo="StoreLogo.png"/></Game>"#;
    let c = parse_microsoft_game_config(xml);
    assert_eq!(c.title.as_deref(), Some("Example Game"));
    assert_eq!(c.exe.as_deref(), Some("ExampleGame.exe"));
    assert_eq!(c.logo.as_deref(), Some("GraphicsLogo.png"));
    let c = parse_microsoft_game_config(
        r#"<ShellVisuals DefaultDisplayName="ms-resource:Title" StoreLogo="s.png"/>"#,
    );
    assert_eq!(c.title, None);
    assert_eq!(c.logo.as_deref(), Some("s.png"));
}

#[test]
fn newest_first_and_deduped() {
    let g = |t: &str, dir: &str, secs: i128| game(t, Store::Steam, dir, secs * 1_000_000_000);
    let mut v = vec![g("Old", r"C:\a", 10), g("New", r"C:\b", 30), g("Dup", r"c:\B", 20)];
    sort_and_dedupe(&mut v);
    assert_eq!(titles(&v), ["New", "Old"]);
}

#[test]
fn a_scan_is_every_store_newest_first() {
    let v = scan(
        vec![game("S", Store::Steam, r"C:\s", 1)],
        vec![game("E", Store::Epic, r"C:\e", 4)],
        vec![game("G", Store::Gog, r"C:\g", 2)],
        vec![game("X", Store::Xbox, r"C:\x", 3)],
        vec![game("S", Store::Manual, r"C:\S", 1), game("M", Store::Manual, r"C:\m", 0)],
    );
    assert_eq!(titles(&v), ["E", "X", "G", "S", "M"]);
    // Of two equal entries for one folder, the store's stays.
    assert_eq!(v[3].store, Store::Steam);
}

#[test]
fn a_path_added_by_hand_loses_to_a_store() {
    let zeta = || game("Zeta", Store::Steam, r"C:\g", 5);
    let v = scan(
        vec![zeta()],
        vec![],
        vec![],
        vec![],
        vec![game("Alpha", Store::Manual, r"c:\G", 5), game("Own", Store::Manual, r"C:\o", 1)],
    );
    assert_eq!(titles(&v), ["Zeta", "Own"]);
    assert_eq!((v[0].store, v[1].store), (Store::Steam, Store::Manual));
    // Even where it is newer.
    let newer = vec![game("Alpha", Store::Manual, r"C:\g", 9)];
    let v = scan(vec![], vec![zeta()], vec![], vec![], newer);
    assert_eq!((v.len(), v[0].store), (1, Store::Steam));
}

#[test]
fn sorting_again_changes_nothing() {
    let mut v = vec![
        game("b", Store::Steam, r"C:\1", 7),
        game("a", Store::Epic, r"C:\1", 7),
        game("c", Store::Gog, r"C:\2", 9),
        game("c", Store::Gog, r"C:\2", 9),
    ];
    sort_and_dedupe(&mut v);
    let once = titles(&v).join(",");
    assert_eq!(once, "c,a");
    sort_and_dedupe(&mut v);
    assert_eq!(titles(&v).join(","), once);
}

#[test]
fn equal_times_are_listed_by_title() {
    let mut v = vec![
        game("b", Store::Steam, r"C:\1", 7),
        game("B", Store::Steam, r"C:\2", 7),
        game("a", Store::Steam, r"C:\3", 7),
    ];
    sort_and_dedupe(&mut v);
    assert_eq!(titles(&v), ["B", "a", "b"]);
}

#[test]
fn a_root_is_listed_once() {
    let vdf = r#""path"  "c:\\\\Steam\\\\" "path" "D:\\\\L""#;
    assert_eq!(all_roots(vdf, r"C:/Steam").len(), 2);
    assert_eq!(all_roots(vdf, r"C:\steam").len(), 3);
    assert!(is_epic_manifest("AB.Item") && !is_epic_manifest("a.items"));
}

#[test]
fn steam_is_looked_for_in_three_places() {
    assert_eq!(
        steam_candidates(Some("d:/steam"), Some(r"E:\Steam")),
        vec![r"d:\steam", r"E:\Steam", r"C:\Program Files (x86)\Steam"]
    );
    assert_eq!(steam_candidates(None, None), vec![r"C:\Program Files (x86)\Steam"]);
}

#[test]
fn the_own_folder_of_steam_is_a_root() {
    let vdf = "\"path\" \"D:\\\\Lib\"";
    assert_eq!(all_roots(vdf, r"C:\Steam"), vec![r"D:\Lib", r"C:\Steam"]);
    assert_eq!(all_roots(vdf, "D:/Lib/"), vec![r"D:\Lib"]);
}

#[test]
fn a_steam_manifest_becomes_a_game() {
    let text = "\"appid\" \"730\"\n\"name\" \"Game\"\n\"installdir\" \"game dir\"\n";
    let e = steam_entry(r"C:\s\steamapps", "AppManifest_730.ACF", text).unwrap();
    assert_eq!(e.dir, r"C:\s\steamapps\common\game dir");
    let g = steam_game(e, 9, Poster::SteamCdn(730));
    assert_eq!((g.title.as_str(), g.store, g.installed), ("Game", Store::Steam, 9));
    assert!(steam_entry(r"C:\s\steamapps", "other.acf", text).is_none());
    let tool = "\"appid\" \"228980\"\n\"name\" \"x\"\n\"installdir\" \"y\"\n";
    assert!(steam_entry(r"C:\s\steamapps", "appmanifest_228980.acf", tool).is_none());
}

#[test]
fn an_epic_manifest_needs_a_title_and_a_folder() {
    let s = |t: &str| Some(t.to_string());
    let (t, d, e) = make_epic(true, false, s("T"), s(r"D:\e"), s("Bin/a.exe")).unwrap();
    assert_eq!((t.as_str(), d.as_str()), ("T", r"D:\e"));
    assert_eq!(e.as_deref(), Some(r"D:\e\Bin\a.exe"));
    // From the root of the drive, and from another drive.
    let (_, _, e) = make_epic(true, false, s("T"), s(r"D:\e"), s("/a.exe")).unwrap();
    assert_eq!(e.as_deref(), Some(r"D:\a.exe"));
    let (_, _, e) = make_epic(true, false, s("T"), s(r"D:\e"), s("C:/a.exe")).unwrap();
    assert_eq!(e.as_deref(), Some(r"C:\a.exe"));
    let (_, _, e) = make_epic(true, false, s("T"), s(r"D:\e"), s("")).unwrap();
    assert_eq!(e, None);
    assert!(make_epic(false, false, s("T"), s("d"), None).is_none());
    assert!(make_epic(true, true, s("T"), s("d"), None).is_none());
    assert!(make_epic(true, false, None, s("d"), None).is_none());
    assert!(make_epic(true, false, s("T"), None, None).is_none());
}

#[test]
fn steam_art_lies_flat_or_below_a_hash() {
    let flat = vec![node("library_600x900.jpg", Kind::File, vec![])];
    let dir = art_dir(r"C:\Steam", 730);
    match steam_poster(r"C:\Steam", 730, &flat) {
        Poster::File(p) => assert_eq!(p, format!(r"{dir}\library_600x900.jpg")),
        other => panic!("{other:?}"),
    }
    assert!(matches!(steam_poster(r"C:\Steam", 730, &[]), Poster::SteamCdn(730)));
    let deep = vec![node(
        "abc",
        Kind::Dir,
        vec![node("library_600x900.jpg", Kind::File, vec![])],
    )];
    match steam_poster(r"C:\Steam", 730, &deep) {
        Poster::File(p) => assert_eq!(p, format!(r"{dir}\abc\library_600x900.jpg")),
        other => panic!("{other:?}"),
    }
}

#[test]
fn stores_without_art_show_the_icon() {
    let exe = Some(r"C:\e\a.exe".to_string());
    let g = epic_game("E".into(), r"C:\e".into(), exe.clone(), true, 1);
    assert!(matches!(&g.poster, Poster::ExeIcon(p) if p == r"C:\e\a.exe"));
    let g = epic_game("E".into(), r"C:\e".into(), exe.clone(), false, 1);
    assert!(matches!(&g.poster, Poster::ExeIcon(p) if p == r"C:\e"));
    assert_eq!(g.exe_hint, exe);
    let g = gog_game("G".into(), r"C:\g".into(), None, 1);
    assert!(matches!(&g.poster, Poster::ExeIcon(p) if p == r"C:\g"));
    assert_eq!(g.store, Store::Gog);
}

#[test]
fn a_game_pass_game_shows_its_logo() {
    let cfg = || XboxConfig {
        title: None,
        exe: Some("Bin/g.exe".into()),
        logo: Some("art/l.png".into()),
    };
    let g = xbox_game("Folder", r"C:\x\Folder\Content", cfg(), true, 3);
    assert_eq!(g.title, "Folder");
    assert_eq!(g.exe_hint.as_deref(), Some(r"C:\x\Folder\Content\Bin\g.exe"));
    assert!(matches!(&g.poster, Poster::File(p) if p == r"C:\x\Folder\Content\art\l.png"));
    let g = xbox_game("Folder", r"C:\x\Folder\Content", cfg(), false, 3);
    assert!(matches!(&g.poster, Poster::ExeIcon(p) if p == r"C:\x\Folder\Content\Bin\g.exe"));
    assert_eq!(in_content("c", &None), None);
}

#[test]
fn own_files_lie_in_the_local_data() {
    assert_eq!(poster_cache_dir(Some(r"C:\L"), r"C:\T"), r"C:\L\revengine-dlss5\posters");
    assert_eq!(added_list_file(None, r"C:\T"), r"C:\T\revengine-dlss5\added-games.txt");
}

#[test]
fn art_is_looked_for_once() {
    assert_eq!(art_step(true, false), ArtStep::Nothing);
    assert_eq!(art_step(false, true), ArtStep::Open);
    assert_eq!(art_step(false, false), ArtStep::Download);
}

#[test]
fn the_newest_entry_of_a_folder_stays() {
    let mut v = vec![
        game("Zed", Store::Steam, r"C:\g", 5),
        game("Abc", Store::Manual, r"c:\G", 5),
        game("Old", Store::Epic, r"C:\G", 4),
    ];
    sort_and_dedupe(&mut v);
    // Of the same time, the title decides.
    assert_eq!(titles(&v), ["Abc"]);
}

#[test]
fn poster_addresses() {
    assert_eq!(
        poster_url(730),
        "https://cdn.cloudflare.steamstatic.com/steam/apps/730/library_600x900.jpg"
    );
    assert_eq!(
        details_url(730),
        "https://store.steampowered.com/api/appdetails?appids=730&filters=basic"
    );
    assert_eq!(poster_file(730, true), "steam_730.jpg");
    assert_eq!(poster_file(730, false), "steam_730.none");
    let json = r#"{"730":{"success":true,"data":{"header_image":"https://x/h.jpg"}}}"#;
    assert_eq!(header_image(json, 730).as_deref(), Some("https://x/h.jpg"));
    assert_eq!(header_image(json, 731), None);
    assert_eq!(header_image("no json", 730), None);
}

#[test]
fn registry_texts_end_before_their_zeroes() {
    let units: Vec<u16> = "C:\\Späß\0\0".encode_utf16().collect();
    let size = (units.len() * 2) as u32;
    assert_eq!(registry_text(&units, size), "C:\\Späß");
}

#[test]
fn icons_get_red_first_and_are_opaque_without_alpha() {
    assert_eq!(icon_pixels(&[1, 2, 3, 0, 4, 5, 6, 0]), vec![3, 2, 1, 255, 6, 5, 4, 255]);
    assert_eq!(icon_pixels(&[1, 2, 3, 0, 4, 5, 6, 9]), vec![3, 2, 1, 0, 6, 5, 4, 9]);
}

#[test]
fn stores_have_labels() {
    assert_eq!(Store::Manual.label(), "Added by you");
    assert_eq!(Store::Epic.label(), "Epic Games");
}
