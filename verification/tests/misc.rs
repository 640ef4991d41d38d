use revengine_dlss5::api::Api;
use revengine_dlss5::bytes::{has_text, has_text_fold, read_u16, read_u32, read_u64};
use revengine_dlss5::cli::{
    action, check_lines, diagnosis_code, done_text, error_log_body, error_log_path, failure_text, finding_line,
    game_line, imports_lines,
    panic_text, parse_args, using_line, Action, CheckFacts, Command, Engine, Lookup,
};
use revengine_dlss5::diagnose::{Finding, Level};
use revengine_dlss5::feed_cfg::{cfg_body, write_if_missing, FEEDER_CFG};
use revengine_dlss5::game::{inspect, Found};
use revengine_dlss5::gpu::{best, classify, is_virtual_adapter, Tier};
use revengine_dlss5::gpupref::{
    clear_ours, get, hybrid, hybrid_from, is_high_performance, real_adapters,
    set_high_performance, with_high_performance, HIGH_PERFORMANCE,
};
use revengine_dlss5::library::{Game, Poster, Store};
use revengine_dlss5::numbers::{dec_text, hex_text, parse_u64};
use revengine_dlss5::paths::{
    file_extension, file_stem, path_below, path_eq, path_join, path_name, path_parent,
};
use revengine_dlss5::text::tidy;
use revengine_dlss5::tree::{Kind, Node};

const VERSION: &str = "0.11.18";

fn strings(v: &[&str]) -> Vec<String> {
    v.iter().map(|s| s.to_string()).collect()
}

#[test]
fn runs_of_spaces_become_one() {
    assert_eq!(
        tidy("0xBAD00001 is FeatureNotSupported, which NGX also          answers"),
        "0xBAD00001 is FeatureNotSupported, which NGX also answers"
    );
    // Wrapped lines and stray indentation read as one paragraph.
    assert_eq!(tidy("first line\n            second"), "first line second");
    assert_eq!(tidy("   padded   "), "padded");
    // A single space is left exactly as it is.
    assert_eq!(tidy("already tidy text"), "already tidy text");
}

#[test]
fn tidying_twice_changes_nothing() {
    for s in ["", "  ", "a \t b\n", "one"] {
        assert_eq!(tidy(&tidy(s)), tidy(s));
    }
}

#[test]
fn writes_only_when_absent_and_never_overwrites() {
    let (name, first) = write_if_missing(&[]).unwrap();
    assert_eq!(name, FEEDER_CFG);
    assert!(first.contains("create_delay = 600"));
    assert!(first.contains("work_resolution = 100"));

    // A second call leaves the existing file byte-for-byte intact.
    let there = Node {
        name: FEEDER_CFG.to_string(),
        kind: Kind::File,
        len: 12,
        bits: None,
        children: Vec::new(),
    };
    assert!(write_if_missing(&[there]).is_none());
}

#[test]
fn body_carries_the_full_key_set() {
    let b = cfg_body();
    for key in [
        "enabled",
        "mode",
        "hdr",
        "depth_inverted",
        "flags",
        "reset_every",
        "create_delay",
        "preset",
        "work_resolution",
        "gpu_timeout_ms",
        "buffer_home",
        "async_home",
        "sync_home",
        "mv_scale_x",
        "mv_scale_y",
    ] {
        assert!(b.contains(key), "missing key {key}: {b}");
    }
}

/// A VR runtime or a virtual-monitor driver adds adapters that are not
/// graphics cards (#30).
#[test]
fn virtual_monitors_are_not_a_second_gpu() {
    let names = strings(&[
        "Meta Virtual Monitor",
        "LuminonCore IDDCX Adapter",
        "NVIDIA GeForce RTX 4060 Ti",
        "MrIdd Device",
    ]);
    assert!(!hybrid_from(&names));

    // A real iGPU beside the card still counts.
    let names = strings(&["NVIDIA GeForce RTX 4070", "AMD Radeon(TM) Graphics"]);
    assert!(hybrid_from(&names));
}

#[test]
fn only_real_adapters_are_counted() {
    let names = strings(&["MrIdd Device", "NVIDIA GeForce RTX 4070", "AMD Radeon(TM) Graphics"]);
    assert_eq!(
        real_adapters(&names),
        vec!["NVIDIA GeForce RTX 4070", "AMD Radeon(TM) Graphics"]
    );
    assert!(hybrid(&names));
    assert!(is_virtual_adapter("MrIdd Device"));
    assert_eq!(classify("NVIDIA GeForce RTX 4070"), Tier::Rtx40);
    assert_eq!(classify("AMD Radeon(TM) Graphics"), Tier::NotNvidia);
    assert_eq!(best(&names).unwrap().0.name, "NVIDIA GeForce RTX 4070");
    assert!(best(&[]).is_none());
}

#[test]
fn preference_token_is_replaced_not_appended() {
    assert_eq!(with_high_performance(""), "GpuPreference=2;");
    assert_eq!(with_high_performance("GpuPreference=1;"), "GpuPreference=2;");
    // Auto HDR and the app-status flag Windows writes must survive.
    assert_eq!(
        with_high_performance("AppStatus=1;AutoHDREnable=2097;GpuPreference=0;"),
        "AppStatus=1;AutoHDREnable=2097;GpuPreference=2;"
    );
    assert!(is_high_performance("AutoHDREnable=2097;GpuPreference=2;"));
    assert!(!is_high_performance("GpuPreference=1;"));
    assert!(!is_high_performance(""));
}

/// The round trip on a registry value: write, read back, and remove again.
#[test]
fn registry_round_trip() {
    let written = set_high_performance(None).unwrap();
    let units: Vec<u16> = written.encode_utf16().chain([0]).collect();
    let stored = get(&units, (units.len() * 2) as u32);
    assert_eq!(stored, HIGH_PERFORMANCE);
    // Second call is a no-op, not a duplicate token.
    assert!(set_high_performance(Some(&stored)).is_none());
    assert!(clear_ours(Some(&stored)));
    assert!(!clear_ours(None));
    assert!(!clear_ours(Some("GpuPreference=1;")));
}

/// The crash log has to name the version, or a report cannot be matched to
/// a build (#23, #32).
#[test]
fn error_log_records_version_and_message() {
    let body = error_log_body(VERSION, "panic at src/gui.rs:12: test");
    assert!(body.starts_with(&format!("revengine-dlss5 {VERSION}")));
    assert!(body.contains("panic at src/gui.rs:12: test"));
    assert_eq!(error_log_path(Some(r"C:\L"), r"C:\T"), r"C:\L\revengine-dlss5\gui-error.txt");
    assert_eq!(
        panic_text(Some("src/gui.rs:12"), Some("test")),
        "panic at src/gui.rs:12: test"
    );
    assert_eq!(panic_text(None, None), "panic at unknown location: panic");
    assert!(failure_text(true, "m", "f").starts_with("revengine-dlss5 stopped unexpectedly."));
    assert!(failure_text(false, "m", "f").contains("Written to f"));
}

#[test]
fn arguments_are_read_in_order() {
    let ask = |v: &[&str]| parse_args(&strings(v));
    assert!(matches!(ask(&[]).command, Command::Window));
    assert!(matches!(ask(&["--list-games"]).command, Command::ListGames));
    assert!(matches!(ask(&["--fetch", "u"]).command, Command::FetchUsage));
    match ask(&["--fetch", "u", "d"]).command {
        Command::Fetch { url, dest } => assert_eq!((url.as_str(), dest.as_str()), ("u", "d")),
        other => panic!("{other:?}"),
    }
    assert!(matches!(ask(&["--imports"]).command, Command::ImportsUsage));
    assert!(matches!(ask(&["g.exe", "--imports"]).command, Command::Imports { .. }));
    assert!(matches!(ask(&["g.exe", "--mode=what"]).command, Command::BadMode));
    assert!(matches!(ask(&["--posters"]).command, Command::Posters));
    assert!(matches!(ask(&["--update"]).command, Command::Update));
    let call = ask(&["g.exe", "--opti", "--renodx", "--check", "--ignore-anticheat", "--mode=native"]);
    assert!(call.ignore_anticheat);
    assert_eq!(call.mode.as_deref(), Some("native"));
    match call.command {
        Command::Run { args } => {
            assert_eq!(args.target, "g.exe");
            assert_eq!(args.choice.engine, Engine::Opti);
            assert!(args.choice.with_renodx && !args.choice.upstream);
            assert!(args.check && !args.remove && !args.remove_all && !args.diagnose);
        }
        other => panic!("{other:?}"),
    }
}

#[test]
fn lines_of_the_command_line() {
    let all = strings(&[r"C:\g\a.exe", r"C:\g\b.exe", r"C:\g\c.exe"]);
    assert_eq!(
        using_line(&all[0], &all).unwrap(),
        r"using C:\g\a.exe (other candidates: b.exe, c.exe)"
    );
    assert_eq!(using_line(&all[0], &all[..1]).unwrap(), r"using C:\g\a.exe");
    assert!(using_line(&all[0], &[]).is_none());
    let f = Finding { level: Level::Warn, text: "two  spaces".to_string() };
    assert_eq!(finding_line(&f), "[warn] two spaces");
    assert!(done_text(Engine::Opti).contains("Insert opens"));
    assert_eq!(
        imports_lines("g.exe", Api::Unknown, b"no image"),
        vec![
            "g.exe".to_string(),
            format!("  api read as: {}", Api::Unknown.label()),
            "  imports: ".to_string()
        ]
    );
}

#[test]
fn a_check_prints_what_was_found() {
    let found = Found {
        exe: r"C:\g\game.exe".to_string(),
        is_file: true,
        image: Some(make_pe()),
        folder: Vec::new(),
        plugins: Vec::new(),
        dlls: Vec::new(),
        proxy: None,
        host_proxy: None,
        d3d9: None,
        renodx_manifest: None,
        renodx_there: false,
        gpu: None,
        skip_gpu_check: true,
        ignore_anticheat: false,
        mode_word: None,
    };
    let mut st = inspect(found).unwrap();
    st.problems.push("two  spaces".to_string());
    st.foreign_renodx.push("renodx-x.addon64".to_string());
    let facts = CheckFacts {
        plan: strings(&["A", "B"]),
        adapters: strings(&["NVIDIA GeForce RTX 4070", "AMD Radeon(TM) Graphics"]),
        preference: None,
        stale: Some(strings(&["Feeder"])),
        renodx: Lookup::Nothing,
    };
    let lines = check_lines(r"C:\g\game.exe", &st, &facts);
    assert!(lines[0].starts_with(r"C:\g\game.exe | 64-bit | "));
    assert!(lines[0].contains(" | mode=Feeder | reshade=false headers=false "));
    assert!(lines[0].ends_with(" | gpu=unknown | complete=false"));
    assert_eq!(
        lines[1..],
        [
            "  ! two spaces",
            "  plan: A -> B",
            "  hybrid machine (NVIDIA GeForce RTX 4070, AMD Radeon(TM) Graphics) · Windows GPU preference for game.exe: not set",
            "  installed by this tool · out of date:",
            "    Feeder",
            "  RenoDX mod present (not installed by this tool): renodx-x.addon64",
            "  RenoDX HDR mod: none for this game",
        ]
    );
}

#[test]
fn a_diagnosis_fails_where_anything_is_wrong() {
    let f = |level: Level| Finding { level, text: String::new() };
    assert_eq!(diagnosis_code(&[f(Level::Fine), f(Level::Warn)]), 0);
    assert_eq!(diagnosis_code(&[f(Level::Bad), f(Level::Fine)]), 1);
}

fn make_pe() -> Vec<u8> {
    let mut head = vec![0u8; 0x40];
    head[..2].copy_from_slice(b"MZ");
    head[0x3C] = 0x40;
    head.extend_from_slice(b"PE\0\0");
    head.extend_from_slice(&0x8664u16.to_le_bytes());
    head.extend_from_slice(&[0u8; 18]);
    head
}

#[test]
fn numbers_as_text() {
    assert_eq!(dec_text(0), "0");
    assert_eq!(dec_text(u64::MAX), "18446744073709551615");
    assert_eq!(hex_text(0x2af, 16), "00000000000002af");
    assert_eq!(parse_u64("18446744073709551615"), Some(u64::MAX));
    assert_eq!(parse_u64("18446744073709551616"), None);
    assert_eq!(parse_u64("+7"), Some(7));
    assert_eq!(parse_u64("-7"), None);
    assert_eq!(parse_u64(""), None);
}

#[test]
fn parts_of_paths() {
    assert_eq!(path_join(r"C:\g", "a.exe"), r"C:\g\a.exe");
    assert_eq!(path_join(r"C:\", "a.exe"), r"C:\a.exe");
    assert_eq!(path_name(r"C:\g\a.exe").as_deref(), Some("a.exe"));
    assert_eq!(path_name(r"C:\"), None);
    assert_eq!(path_parent(r"C:\g\a.exe").as_deref(), Some(r"C:\g"));
    assert_eq!(path_parent(r"C:\a.exe").as_deref(), Some(r"C:\"));
    assert_eq!(path_parent(r"C:\"), None);
    assert_eq!(file_stem("a.tar.gz"), "a.tar");
    assert_eq!(file_stem(".hidden"), ".hidden");
    assert_eq!(file_extension("a.tar.gz").as_deref(), Some("gz"));
    assert_eq!(path_below(r"C:\g\", r"C:\g\bin\a.exe").as_deref(), Some(r"bin\a.exe"));
    assert_eq!(path_below(r"C:\g", r"C:\game\a.exe"), None);
    assert_eq!(path_join(r"C:\g", "a"), r"C:\g\a");
    assert_eq!(path_join(r"C:\g", r"\a"), r"C:\a");
    assert_eq!(path_join(r"\\m\share\g", r"\a"), r"\\m\share\a");
    assert_eq!(path_join(r"C:\g", r"\\m\share"), r"\\m\share");
    assert_eq!(path_join("C:", "a"), "C:a");
    assert_eq!(path_join(r"C:\g", r"\\m"), r"C:\\m");
}

#[test]
fn points_drives_and_shares_in_paths() {
    let name = |p: &str| path_name(p);
    let parent = |p: &str| path_parent(p);
    assert_eq!(name(r"Foo\.").as_deref(), Some("Foo"));
    assert_eq!(name(r"C:\Foo\.\").as_deref(), Some("Foo"));
    assert_eq!(name(r"Foo\..a").as_deref(), Some("..a"));
    assert_eq!(name("C:foo").as_deref(), Some("foo"));
    for none in ["", ".", "..", r"a\..", "C:", "C:.", r"C:\.", r"\", r"\\m\share", r"\\m\share\"] {
        assert_eq!(name(none), None, "{none}");
    }
    assert_eq!(name(r"\\m\share\a").as_deref(), Some("a"));
    assert_eq!(name(r"\\m").as_deref(), Some("m"));
    assert_eq!(parent(r"Foo\.").as_deref(), Some(""));
    assert_eq!(parent(r"a\.\b").as_deref(), Some("a"));
    assert_eq!(parent(r".\a").as_deref(), Some("."));
    assert_eq!(parent(".").as_deref(), Some(""));
    assert_eq!(parent("..").as_deref(), Some(""));
    assert_eq!(parent("C:foo").as_deref(), Some("C:"));
    assert_eq!(parent("C:/a").as_deref(), Some("C:/"));
    assert_eq!(parent(r"\\m\share\a").as_deref(), Some(r"\\m\share\"));
    for none in ["", "C:", r"C:\", r"\", r"\\m\share", r"\\m\share\", r"C:\."] {
        assert_eq!(parent(none), None, "{none}");
    }
}

#[test]
fn verbatim_paths_have_prefixes_of_their_own() {
    let name = |p: &str| path_name(p);
    let parent = |p: &str| path_parent(p);
    for none in [r"\\?\UNC\m\s", r"\\?\UNC\m\s\", r"\\?\C:\", r"\\?\C:", r"\\?\x", r"\\.\COM1"] {
        assert_eq!(parent(none), None, "{none}");
        assert_eq!(name(none), None, "{none}");
    }
    assert_eq!(parent(r"\\?\UNC\m\s\a").as_deref(), Some(r"\\?\UNC\m\s\"));
    assert_eq!(parent(r"\\?\C:\a\b").as_deref(), Some(r"\\?\C:\a"));
    assert_eq!(parent(r"\\?\x\a").as_deref(), Some(r"\\?\x\"));
    // Only a backslash parts them, and a point is a part.
    assert_eq!(name(r"\\?\C:\a/b").as_deref(), Some("a/b"));
    assert_eq!(name(r"\\?\C:\a\."), None);
    assert_eq!(parent(r"\\?\C:\a\.").as_deref(), Some(r"\\?\C:\a"));
    // With other separators it is a machine's.
    assert_eq!(name(r"//?/C:/a").as_deref(), Some("a"));
    assert_eq!(parent(r"//?/C:/a").as_deref(), Some(r"//?/C:/"));
    // What is joined to one is written anew.
    assert_eq!(path_join(r"\\?\C:\a\\b", "c"), r"\\?\C:\a\b\c");
    assert_eq!(path_join(r"\\?\C:\a\b", r"..\.\c/d"), r"\\?\C:\a\c\d");
    assert_eq!(path_join(r"\\?\C:\a", r"\d"), r"\\?\C:\d");
    assert_eq!(path_join(r"\\?\C:", ".."), r"\\?\C:");
    assert_eq!(path_join(r"\\?\C:\a", r"D:\x"), r"D:\x");
    assert_eq!(parent("C:."), None);
}

#[test]
fn paths_are_compared_by_their_parts() {
    for (a, b) in [
        (r"c:\Steam", r"C:\Steam"),
        (r"C:/Steam/", r"C:\Steam"),
        (r"C:\\Steam\\\x", r"C:\Steam\x"),
        (r"C:\Steam\.\x\.", r"C:\Steam\x"),
        (r"//m/s", r"\\m\s\"),
        (r"\\?\c:\x", r"\\?\C:\x"),
        ("C:.", "C:"),
    ] {
        assert!(path_eq(a, b), "{a} {b}");
    }
    for (a, b) in [
        (r"C:\Steam", r"C:\steam"),
        (r"C:\Steam", "C:Steam"),
        (r"C:\Steam", r"D:\Steam"),
        (r"\\m\s", r"\\M\s"),
        (r"\\?\C:\x", r"C:\x"),
        (".", ""),
        (r"a\..", ""),
        ("a", r"a\b"),
        (r"\\?\C:\a\.", r"\\?\C:\a"),
    ] {
        assert!(!path_eq(a, b), "{a} {b}");
    }
    assert_eq!(path_below("c:/g", r"C:\g\.\bin\\a.exe\").as_deref(), Some(r"bin\\a.exe"));
    assert_eq!(path_below(r"C:\", r"C:\\a").as_deref(), Some("a"));
    assert_eq!(path_below("C:", r"C:\a").as_deref(), Some(r"\a"));
    assert_eq!(path_below("", r"C:\a\").as_deref(), Some(r"C:\a"));
    assert_eq!(path_below(r"C:\g", r"C:\g").as_deref(), Some(""));
    assert_eq!(path_below(r"C:\g", r"C:\"), None);
    assert_eq!(path_below(r"C:\g", r"D:\g\a"), None);
}

#[test]
fn a_line_of_the_games_list() {
    let g = |title: &str, installed: i128| Game {
        title: title.to_string(),
        store: Store::Gog,
        dir: r"C:\g".to_string(),
        exe_hint: None,
        installed,
        poster: Poster::SteamCdn(7),
    };
    assert_eq!(
        game_line(&g("Ab", 1_999_999_999), "P"),
        format!("{:<10} {:<12} {:<50} {} poster={}", 1, "GOG", "Ab", r"C:\g", "P")
    );
    let long = "é".repeat(60);
    assert_eq!(
        game_line(&g(&long, -5), ""),
        format!("{:<10} {:<12} {:<50} {} poster=", 0, "GOG", "é".repeat(50), r"C:\g")
    );
}

#[test]
fn what_a_run_does_has_an_order() {
    let ask = |v: &[&str]| match parse_args(&strings(v)).command {
        Command::Run { args } => action(&args),
        other => panic!("{other:?}"),
    };
    assert_eq!(ask(&["g", "--remove", "--remove-all", "--check", "--diagnose"]), Action::Diagnose);
    assert_eq!(ask(&["g", "--remove", "--remove-all", "--check"]), Action::Check);
    assert_eq!(ask(&["g", "--remove", "--remove-all"]), Action::RemoveAll);
    assert_eq!(ask(&["g", "--remove"]), Action::Remove);
    assert_eq!(ask(&["g"]), Action::Install);
}

#[test]
fn bytes_in_little_endian() {
    let b = [1u8, 2, 3, 4, 5, 6, 7, 8];
    assert_eq!(read_u16(&b, 1), Some(0x0302));
    assert_eq!(read_u32(&b, 4), Some(0x08070605));
    assert_eq!(read_u64(&b, 0), Some(0x0807060504030201));
    assert_eq!(read_u64(&b, 1), None);
    assert_eq!(read_u16(&b, u64::MAX), None);
    assert!(has_text(b"xxDLSSxx", "DLSS"));
    assert!(!has_text(b"xxdlssxx", "DLSS"));
    assert!(has_text_fold(b"xxdlssxx", "DLSS"));
}
