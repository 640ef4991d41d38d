use revengine_dlss5::api::Api;
use revengine_dlss5::cli::Engine;
use revengine_dlss5::diagnose::{Finding, Level};
use revengine_dlss5::game::{GameStatus, Mode, VULKAN_PROBLEM};
use revengine_dlss5::gpu::{Gpu, Tier};
use revengine_dlss5::library::{Game, Poster, Store};
use revengine_dlss5::renodx::Mod;
use revengine_dlss5::session::{
    can_check, installed_text, pump_update, recheck_due, release_url, removed_text, says_newest,
    step_line, update_bar, update_move, Available, Job, LogLine, Msg, StepState, UpdateMove,
    UpdateState,
};
use revengine_dlss5::setup::{
    addon_hint, anticheat_label, bar_percent, can_run, engine_hint, exe_name, facts_text,
    hdr_line, input_path, lookup_due, mode_choice_name, needs_dlss_note, pick_exe, pill_text,
    problems_for, progress_text, step_parts, usable, Chosen, HdrLine, RenodxLookup,
};
use revengine_dlss5::shelf::{
    add_game, busy_text, card_action, card_menu, card_text, forget_game, groups, meta_of,
    path_to_open, summary, CardAction, GameMeta, GroupNote, Section,
};
use revengine_dlss5::tiles::{tiles_for, Tile, TileState};

fn status(mode: Mode, api: Api, bitness: u8) -> GameStatus {
    GameStatus {
        mode,
        api,
        bridge: false,
        opti: false,
        gpu: None,
        exe: r"C:\g\game.exe".to_string(),
        bitness,
        reshade: false,
        headers: false,
        feeder: false,
        lumenite: false,
        dlss5_addon: false,
        dlssnr: false,
        dlss: false,
        mode_detected: mode,
        host_exe: false,
        host_reshade: false,
        re_engine: false,
        reframework: false,
        upstream: false,
        renodx_mod: None,
        foreign_renodx: Vec::new(),
        anticheat: None,
        problems: Vec::new(),
    }
}

fn game(title: &str, store: Store, dir: &str, installed: i128) -> Game {
    Game {
        title: title.to_string(),
        store,
        dir: dir.to_string(),
        exe_hint: None,
        installed,
        poster: Poster::SteamCdn(1),
    }
}

fn meta(installed: bool, ready: bool, stale: &[&str]) -> Option<GameMeta> {
    Some(GameMeta {
        api: "DirectX 12",
        has_dlss: true,
        addon: false,
        ready,
        installed,
        stale: stale.iter().map(|s| s.to_string()).collect(),
    })
}

#[test]
fn feeder_components_are_listed_where_nothing_is_known() {
    assert_eq!(
        tiles_for(None, Engine::Opti, false, true),
        vec![
            Tile::ReShade,
            Tile::Headers,
            Tile::Feeder,
            Tile::Lumenite,
            Tile::Addon,
            Tile::Dlss
        ]
    );
}

#[test]
fn native_components_follow_the_engine() {
    let mut st = status(Mode::Native, Api::Dx11, 64);
    assert_eq!(
        tiles_for(Some(&st), Engine::ReShade, false, false),
        vec![Tile::GameDlss, Tile::ReShade, Tile::Addon, Tile::Bridge]
    );
    assert_eq!(
        tiles_for(Some(&st), Engine::Opti, true, false),
        vec![Tile::GameDlss, Tile::Opti, Tile::Addon, Tile::Renodx]
    );
    st.api = Api::Dx12;
    assert_eq!(
        tiles_for(Some(&st), Engine::ReShade, false, true),
        vec![Tile::GameDlss, Tile::ReShade, Tile::Upstream]
    );
    st.bitness = 32;
    st.re_engine = true;
    assert_eq!(
        tiles_for(Some(&st), Engine::ReShade, false, false),
        vec![Tile::Reframework, Tile::Host, Tile::GameDlss, Tile::ReShade, Tile::Addon]
    );
}

#[test]
fn components_say_where_they_stand() {
    let mut st = status(Mode::Native, Api::Dx11, 64);
    assert_eq!(Tile::GameDlss.state(Some(&st)), TileState::Installed);
    assert_eq!(Tile::GameDlss.state(None), TileState::Missing);
    assert_eq!(Tile::Bridge.state(Some(&st)), TileState::NotNeeded);
    assert_eq!(Tile::Addon.state(Some(&st)).label(), "missing");
    st.dlss5_addon = true;
    assert!(!Tile::Addon.ok(&st));
    st.dlssnr = true;
    assert!(Tile::Addon.ok(&st));
    assert_eq!(Tile::Bridge.title(), "DX11 bridge");
    assert_eq!(Tile::Dlss.detail(), "DLSS runtime · the Feeder's NGX session needs it");
    assert!(Tile::Renodx.optional() && !Tile::Host.optional());
}

#[test]
fn games_are_grouped_by_what_was_installed_and_by_store() {
    let all = vec![
        game("Alpha", Store::Steam, r"C:\a", 5),
        game("Beta", Store::Steam, r"C:\b", 4),
        game("Gamma", Store::Manual, r"C:\c", 3),
        game("Alphabet", Store::Epic, r"C:\d", 2),
    ];
    let metas = vec![meta(true, true, &["ReShade"]), meta(false, true, &[]), None];
    let g = groups(&all, &metas, "");
    let shape: Vec<(Section, Vec<usize>)> =
        g.iter().map(|x| (x.section, x.places.clone())).collect();
    assert_eq!(
        shape,
        vec![
            (Section::Ours, vec![0]),
            (Section::Of(Store::Manual), vec![2]),
            (Section::Of(Store::Steam), vec![1]),
            (Section::Of(Store::Epic), vec![3]),
        ]
    );
    assert_eq!((g[0].ready, g[0].stale), (1, 1));
    assert!(matches!(g[0].note(), GroupNote::Behind(t) if t == "1 need updating"));
    assert!(matches!(g[2].note(), GroupNote::Ready(t) if t == "1 ready for DLSS 5"));
    assert!(matches!(g[1].note(), GroupNote::Nothing));
    assert_eq!(g[0].section.label(), "Installed by this tool");
    let g = groups(&all, &metas, "  ALPHA ");
    let shape: Vec<Vec<usize>> = g.iter().map(|x| x.places.clone()).collect();
    assert_eq!(shape, vec![vec![0], vec![3]]);
    assert!(groups(&all, &metas, "zzz").is_empty());
    assert_eq!(summary(false, 4, &metas), "4 found · 2 on DirectX 12");
    assert_eq!(summary(true, 4, &metas), "scanning Steam, Epic, GOG and Xbox…");
}

#[test]
fn what_a_card_offers_and_says() {
    let metas = vec![meta(true, true, &["ReShade 6.8", "Feeder"]), meta(true, false, &[]), None];
    assert_eq!(card_menu(Store::Steam, &metas, 0).update, Some("Update"));
    assert_eq!(card_menu(Store::Manual, &metas, 1).update, Some("Re-install"));
    assert!(card_menu(Store::Manual, &metas, 1).forget);
    assert_eq!(card_menu(Store::Steam, &metas, 2).update, None);
    assert_eq!(card_menu(Store::Steam, &metas, 9).update, None);
    assert!(metas[0].as_ref().unwrap().update_badge(false));
    assert!(!metas[0].as_ref().unwrap().update_badge(true));
    assert_eq!(metas[0].as_ref().unwrap().dlss_mark(), "DLSS");
    assert_eq!(metas[0].as_ref().unwrap().addon_mark(), "no add-on");
    let g = game("Alpha", Store::Steam, r"C:\a", 5);
    assert_eq!(
        card_text(&g, &metas, 0),
        "Alpha\nC:\\a\n\nOut of date:\n  ReShade 6.8\n  Feeder"
    );
    assert_eq!(card_text(&g, &metas, 2), "Alpha\nC:\\a");
    assert_eq!(busy_text(true, 140), "Updating… 100%");
    assert_eq!(busy_text(false, 7), "Finishing…");
    assert_eq!(card_action(true, false, false, false), CardAction::Open);
    assert_eq!(card_action(true, true, false, false), CardAction::Nothing);
    assert_eq!(card_action(true, false, true, false), CardAction::Update);
    assert_eq!(card_action(false, false, true, true), CardAction::Forget);
}

#[test]
fn a_card_opens_its_folder_unless_only_the_store_knows_the_exe() {
    let mut g = game("Alpha", Store::Epic, r"C:\a", 5);
    g.exe_hint = Some(r"C:\a\boot.exe".to_string());
    let mut pe = vec![0u8; 0x58];
    pe[..2].copy_from_slice(b"MZ");
    pe[0x3C] = 0x40;
    pe[0x40..0x44].copy_from_slice(b"PE\0\0");
    pe[0x44..0x46].copy_from_slice(&0x8664u16.to_le_bytes());
    assert_eq!(path_to_open(&g, true, Some(&pe)), r"C:\a");
    assert_eq!(path_to_open(&g, false, Some(&pe)), r"C:\a\boot.exe");
    assert_eq!(path_to_open(&g, false, Some(b"no image")), r"C:\a");
    assert_eq!(path_to_open(&g, false, None), r"C:\a");
}

#[test]
fn a_game_is_added_and_forgotten() {
    let mut v = vec![game("Old", Store::Steam, r"C:\o", 1)];
    add_game(&mut v, game("Mine", Store::Manual, r"C:\m", 9));
    assert_eq!(v.len(), 2);
    assert_eq!(v[0].title, "Mine");
    let v = forget_game(&v, r"c:/m/");
    assert_eq!(v.len(), 1);
    // A store's game of that folder stays.
    assert_eq!(forget_game(&v, r"C:\o").len(), 1);
}

#[test]
fn the_card_of_a_game_is_read_from_its_status() {
    let mut st = status(Mode::Native, Api::Dx11, 64);
    st.opti = true;
    let m = meta_of(&st, &[], vec!["x".to_string()]);
    assert_eq!(m.api, "DirectX 11");
    assert!(m.has_dlss && m.addon && !m.ready && !m.installed);
    assert_eq!(m.stale.len(), 1);
}

#[test]
fn a_job_runs_and_ends() {
    let mut j = Job::new();
    j.updating = Some(3);
    j.start();
    assert!(j.running);
    let more = j.pump(vec![
        Msg::Log(step_line(0, 2, "ReShade", StepState::Start, "")),
        Msg::Progress(40, "half".to_string()),
    ]);
    assert!(!more);
    assert_eq!((j.progress, j.progress_msg.as_str()), (40, "half"));
    assert!(matches!(&j.log[0], LogLine::Step(s) if s == "[1/2] ReShade"));
    assert!(j.pump(vec![Msg::Finished(Ok("all done".to_string()))]));
    assert!(!j.running);
    assert_eq!((j.progress, j.progress_msg.as_str()), (100, "Done."));
    assert_eq!((j.updating, j.pending_refresh), (None, Some(3)));
    assert!(matches!(&j.log[1], LogLine::Plain(s) if s == "all done"));
    j.start();
    assert!(j.log.is_empty());
    assert!(j.pump(vec![
        Msg::Progress(7, "x".to_string()),
        Msg::Finished(Err("broken".to_string())),
    ]));
    assert_eq!((j.progress, j.progress_msg.as_str()), (7, "Failed."));
    assert_eq!(j.last_error.as_deref(), Some("broken"));
    j.show_findings(&[
        Finding { level: Level::Fine, text: "a  b".to_string() },
        Finding { level: Level::Warn, text: "w".to_string() },
        Finding { level: Level::Bad, text: "f".to_string() },
    ]);
    assert!(matches!(&j.log[0], LogLine::Fine(s) if s == "ok: a b"));
    assert!(matches!(&j.log[1], LogLine::Plain(s) if s == "warn: w"));
    assert!(matches!(&j.log[2], LogLine::Fail(s) if s == "FAIL: f"));
    assert_eq!(j.log.len(), 3);
}

#[test]
fn lines_of_the_log() {
    assert!(matches!(step_line(0, 2, "n", StepState::Done, "d"), LogLine::Fine(s) if s == "ok: d"));
    assert!(
        matches!(step_line(0, 2, "n", StepState::Error, "d"), LogLine::Fail(s) if s == "FAILED: d")
    );
    assert_eq!(removed_text(&[]), "Removed: nothing");
    assert_eq!(removed_text(&["a".to_string(), "b".to_string()]), "Removed: a, b");
    assert!(installed_text(Engine::Opti).contains("Insert"));
    assert!(installed_text(Engine::ReShade).contains("\"no effect files\""));
    assert_eq!(step_parts("[1/2] Shader headers"), ("[1/2]".to_string(), "Shader headers".to_string()));
    assert_eq!(step_parts("plain"), (String::new(), "plain".to_string()));
}

fn newer() -> UpdateState {
    UpdateState::Available(Available { version: "9.9".to_string(), tag: "v9.9".to_string() })
}

#[test]
fn a_skipped_version_is_not_offered() {
    assert!(matches!(pump_update(UpdateState::Idle, vec![newer()], ""), UpdateState::Available(_)));
    assert!(matches!(pump_update(UpdateState::Idle, vec![newer()], "9.9"), UpdateState::Idle));
    assert!(matches!(
        pump_update(newer(), vec![newer(), UpdateState::Restarting], "9.9"),
        UpdateState::Restarting
    ));
    assert!(matches!(pump_update(newer(), vec![], "9.9"), UpdateState::Available(_)));
}

#[test]
fn updates_are_looked_for_every_half_hour() {
    assert!(recheck_due(&UpdateState::Idle, false, 1800));
    assert!(!recheck_due(&UpdateState::Idle, false, 1799));
    assert!(!recheck_due(&UpdateState::Idle, true, 9999));
    assert!(!recheck_due(&newer(), false, 9999));
    assert!(can_check(&UpdateState::Idle, false));
    assert!(says_newest(true, &UpdateState::Idle, false));
    assert!(!says_newest(false, &UpdateState::Idle, false));
    assert_eq!(update_bar(&UpdateState::Idle, "1"), None);
    assert_eq!(
        update_bar(&newer(), "1.0").unwrap(),
        "Version 9.9 is available (you have 1.0)."
    );
    assert_eq!(
        update_bar(&UpdateState::Downloading(5, "x".to_string()), "1").unwrap(),
        "Updating: 5% x"
    );
    assert_eq!(
        update_bar(&UpdateState::Failed("e".to_string()), "1").unwrap(),
        "Update failed: e"
    );
    assert_eq!(release_url("o/r", "v1"), "https://github.com/o/r/releases/tag/v1");
}

#[test]
fn an_update_uses_the_engine_that_is_there() {
    let mut st = status(Mode::Native, Api::Dx12, 64);
    st.opti = true;
    assert_eq!(update_move(&Some(Ok(st))), UpdateMove::Install(Engine::Opti));
    let st = status(Mode::Native, Api::Dx12, 64);
    assert_eq!(update_move(&Some(Ok(st))), UpdateMove::Install(Engine::ReShade));
    let mut st = status(Mode::Native, Api::Dx12, 64);
    st.problems.push("p".to_string());
    assert_eq!(update_move(&Some(Ok(st))), UpdateMove::Blocked);
    assert_eq!(update_move(&Some(Err("e".to_string()))), UpdateMove::Explain);
    assert_eq!(update_move(&None), UpdateMove::Explain);
}

#[test]
fn typed_paths_lose_spaces_and_quotes() {
    assert_eq!(input_path("  \"C:\\g\\a.exe\" "), r"C:\g\a.exe");
    assert_eq!(input_path("\"\""), "");
    let all = vec!["a".to_string(), "b".to_string()];
    assert_eq!(pick_exe(Some("b"), "a", &all), "b");
    assert_eq!(pick_exe(Some("c"), "a", &all), "a");
    assert_eq!(pick_exe(Some("b"), "a", &all[1..]), "a");
    assert_eq!(pick_exe(None, "a", &all), "a");
    assert_eq!(pick_exe(Some(r".\x\."), "a", &[r".\x".to_string(), "a".to_string()]), r".\x\.");
    assert_eq!(exe_name(r"C:\g", r"C:\g\bin\a.exe"), r"bin\a.exe");
    assert_eq!(exe_name(r"C:\g\a.exe", r"C:\g\a.exe"), "");
    assert_eq!(exe_name(r"D:\x", r"C:\g\a.exe"), "a.exe");
    assert!(lookup_due(Some("a"), Some("b")) && lookup_due(None, Some("b")));
    assert!(!lookup_due(Some("a"), Some("a")) && !lookup_due(None, None));
    assert!(!lookup_due(Some(r"c:\g\a.exe"), Some(r"C:/g//a.exe")));
}

#[test]
fn a_vulkan_game_blocks_one_engine_only() {
    let st = Some(Ok(status(Mode::Native, Api::Vulkan, 64)));
    assert_eq!(problems_for(&st, Engine::ReShade), vec![VULKAN_PROBLEM]);
    assert!(problems_for(&st, Engine::Opti).is_empty());
    assert!(!can_run(&st, Engine::ReShade, false));
    assert!(can_run(&st, Engine::Opti, false));
    assert!(!can_run(&st, Engine::Opti, true));
    let bad = Some(Err("gone".to_string()));
    assert_eq!(problems_for(&bad, Engine::Opti), vec!["gone"]);
    assert!(!can_run(&bad, Engine::Opti, false));
    assert!(problems_for(&None, Engine::ReShade).is_empty());
    assert!(!can_run(&None, Engine::ReShade, false));
}

#[test]
fn what_the_setup_page_says() {
    let mut st = status(Mode::Feeder, Api::Dx12, 64);
    assert_eq!(facts_text(&st), format!("64-bit · {}", Api::Dx12.label()));
    st.gpu = Some((Gpu { name: "RTX".to_string() }, Tier::Rtx50));
    assert_eq!(
        facts_text(&st),
        format!("64-bit · {} · RTX ({})", Api::Dx12.label(), Tier::Rtx50.label())
    );
    assert_eq!(mode_choice_name(None, Mode::Feeder), "Auto: no DLSS · Feeder path");
    assert_eq!(mode_choice_name(Some(Mode::Native), Mode::Feeder), "Force native DLSS");
    assert!(anticheat_label("BattlEye").starts_with("BattlEye is switched off"));
    assert_eq!(usable(Some(&st), Engine::Opti, true), (Engine::ReShade, false));
    st.mode = Mode::Native;
    assert_eq!(usable(Some(&st), Engine::Opti, true), (Engine::Opti, true));
    assert_eq!(pill_text(true, false), "SELECTED");
    assert_eq!(pill_text(false, true), "CHOOSE");
    assert_eq!(pill_text(false, false), "UNAVAILABLE");
    assert_ne!(engine_hint(true), engine_hint(false));
    assert_ne!(addon_hint(true), addon_hint(false));
    assert_eq!(needs_dlss_note(true), "");
    assert_eq!(progress_text(false, "", true), "Everything is in place.");
    assert_eq!(progress_text(true, "", true), "");
    assert_eq!(progress_text(false, "Failed.", true), "Failed.");
    assert_eq!(bar_percent(true, 40, true), 40);
    assert_eq!(bar_percent(false, 40, false), 0);
    assert_eq!(bar_percent(false, 100, false), 100);
}

#[test]
fn the_hdr_mod_is_offered_unless_one_is_there() {
    let found = RenodxLookup::Found(Mod {
        title: "T".to_string(),
        file: "renodx-t.addon64".to_string(),
        url: None,
        status: "stable",
        note: "read me".to_string(),
    });
    let mut st = status(Mode::Native, Api::Dx12, 64);
    match hdr_line(&st, &found, Engine::Opti) {
        HdrLine::Offer { label, remarks } => {
            assert_eq!(label, "Also install renodx-t.addon64 — working");
            assert_eq!(remarks.len(), 2);
            assert_eq!(remarks[1], "— read me");
        }
        other => panic!("{other:?}"),
    }
    let says = |st: &GameStatus, l: &RenodxLookup| match hdr_line(st, l, Engine::ReShade) {
        HdrLine::Remark(s) => s,
        other => panic!("{other:?}"),
    };
    assert_eq!(says(&st, &RenodxLookup::NotFound), "— no RenoDX mod is published for this game.");
    assert_eq!(says(&st, &RenodxLookup::Failed("x".to_string())), "— lookup failed: x");
    assert_eq!(says(&st, &RenodxLookup::Idle), says(&st, &RenodxLookup::Pending));
    st.foreign_renodx = vec!["a".to_string(), "b".to_string()];
    assert!(says(&st, &found).contains("a, b"));
    st.renodx_mod = Some("m".to_string());
    assert_eq!(says(&st, &found), "— installed: m (Remove takes it out too)");
}

#[test]
fn a_typed_path_leads_to_a_game() {
    let mut c = Chosen::new();
    assert_eq!(c.typed(" \"C:\\g\" ").as_deref(), Some(r"C:\g"));
    let all = vec!["a.exe".to_string(), "b.exe".to_string()];
    assert_eq!(c.resolved(Ok(("a.exe".to_string(), all.clone()))).as_deref(), Some("a.exe"));
    assert!(c.inspected(Ok(status(Mode::Feeder, Api::Dx12, 64))));
    c.renodx_on = true;
    // The same executable again: nothing is looked up, and the tick stays.
    assert!(!c.inspected(Ok(status(Mode::Feeder, Api::Dx12, 64))));
    assert!(c.renodx_on);
    c.pick("b.exe".to_string());
    assert!(c.inspected(Err("unreadable".to_string())));
    assert!(!c.renodx_on);
    // Resolved once more, what was picked stays.
    assert!(c.typed(r"C:\g").is_some());
    assert!(c.exe.is_none() && c.candidates.is_empty());
    assert_eq!(c.resolved(Ok(("a.exe".to_string(), all))).as_deref(), Some("b.exe"));
    assert!(c.typed(r"C:\nope").is_some());
    assert!(c.resolved(Err("no game".to_string())).is_none());
    assert!(matches!(&c.status, Some(Err(e)) if e == "no game"));
    assert!(c.typed("  ").is_none());
    assert!(c.status.is_none());
}
