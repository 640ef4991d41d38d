use revengine_dlss5::diagnose::{
    diagnose, older, reshade_host_exe, run, version_key, Finding, Level, Logs,
};
use revengine_dlss5::game::{Found, InspectError};
use revengine_dlss5::tree::{Kind, Node};

fn file(name: &str, len: u64) -> Node {
    Node { name: name.to_string(), kind: Kind::File, len, bits: None, children: Vec::new() }
}

fn make_pe() -> Vec<u8> {
    let mut head = vec![0u8; 0x40];
    head[..2].copy_from_slice(b"MZ");
    head[0x3C..0x40].copy_from_slice(&0x40u32.to_le_bytes());
    head.extend_from_slice(b"PE\0\0");
    head.extend_from_slice(&0x8664u16.to_le_bytes());
    head.extend_from_slice(&[0u8; 18]);
    head
}

/// A game with nothing beside its exe, or with a DLSS of its own.
fn setup(feeder: bool) -> Found {
    let mut folder = vec![file("game.exe", 86)];
    if !feeder {
        folder.push(file("nvngx_dlss.dll", 1));
    }
    Found {
        exe: r"C:\g\game.exe".to_string(),
        is_file: true,
        image: Some(make_pe()),
        folder,
        plugins: Vec::new(),
        dlls: Vec::new(),
        proxy: None,
        host_proxy: None,
        d3d9: None,
        renodx_manifest: None,
        renodx_there: false,
        gpu: None,
        skip_gpu_check: true,
        ignore_anticheat: false,
        mode_word: None,
    }
}

fn no_logs() -> Logs {
    Logs {
        compiler: false,
        compiler_version: None,
        model_here: None,
        model_there: None,
        reshade: None,
        reshade2: None,
        bridge: None,
        feed: None,
        host: None,
        redist: None,
        redist_version: None,
        adapters: Vec::new(),
        exe_preference: None,
        host_preference: None,
        ngx_system: String::new(),
        ngx_healthy: true,
    }
}

fn says(f: &[Finding], text: &str) -> bool {
    f.iter().any(|x| x.text.contains(text))
}

/// Baldur's Gate 3 ships bg3.exe (Vulkan) and bg3_dx11.exe; installing for
/// one and playing the other leaves everything looking right and nothing
/// hooked (#33). The exe name is in ReShade's first line.
#[test]
fn reshade_host_exe_reads_the_first_line() {
    let log = "01:30:11:810 [17792] | INFO  | Initializing crosire's ReShade version '6.8.0.2155' (64-bit) loaded from 'C:\\\\Program Files (x86)\\\\Steam\\\\steamapps\\\\common\\\\Baldurs Gate 3\\\\bin\\\\dxgi.dll' into 'C:\\\\Program Files (x86)\\\\Steam\\\\steamapps\\\\common\\\\Baldurs Gate 3\\\\bin\\\\bg3_dx11.exe' (0x64317982) ...";
    assert_eq!(reshade_host_exe(log).as_deref(), Some("bg3_dx11.exe"));
    assert!(reshade_host_exe("nothing useful here").is_none());
}

#[test]
fn no_reshade_log_is_fatal() {
    let f = run(setup(true), &no_logs()).unwrap();
    assert_eq!(f.len(), 1);
    assert_eq!(f[0].level, Level::Bad);
    assert!(f[0].text.contains("never loaded"));
}

#[test]
fn native_without_game_dlss_call() {
    let mut l = no_logs();
    l.reshade = Some(
        "Initializing crosire's ReShade version '6.8.0'\nRegistered add-on \"DLSS 5 Neural Rendering\"\n"
            .to_string(),
    );
    let f = run(setup(false), &l).unwrap();
    assert!(says(&f, "game's own DLSS never ran"));
    assert!(f.iter().any(|x| x.level == Level::Fine && x.text.contains("add-on registered")));
}

#[test]
fn addon_load_failure_is_explained() {
    let mut l = no_logs();
    l.reshade = Some(
        "Initializing crosire's ReShade\nFailed to load add-on from 'C:\\g\\renodx-dlss5.addon64' with error code 2148073478!\n"
            .to_string(),
    );
    let f = run(setup(false), &l).unwrap();
    assert!(says(&f, "unsigned DLLs"));
}

#[test]
fn feeder_provider_not_enabled() {
    let mut l = no_logs();
    l.reshade = Some(
        "Initializing crosire's ReShade\nRegistered add-on \"DLSS 5 Neural Rendering\"\n"
            .to_string(),
    );
    l.feed = Some(
        "[feed] effects: DLSS5_Feed.fx technique found, DLSS5_MV_PROVIDER=3 (LumeniteFX Kernel) -> none (not installed)\n"
            .to_string(),
    );
    let f = run(setup(true), &l).unwrap();
    assert!(says(&f, "motion-vector provider is not enabled"));
}

#[test]
fn feeder_last_effects_line_wins_and_ngx_init_failure_named() {
    let mut l = no_logs();
    l.reshade = Some(
        "Initializing crosire's ReShade\nRegistered add-on \"DLSS 5 Neural Rendering\"\n"
            .to_string(),
    );
    l.feed = Some(
        "12:33:33.151  dlss5-feed 0.7.0 (built Aug 31 2026) attached.\n\
         [feed] effects: DLSS5_Feed.fx technique MISSING, DLSS5_MV_PROVIDER=3 (LumeniteFX Kernel) -> none (not installed)\n\
         [feed] effects: DLSS5_Feed.fx technique found, DLSS5_MV_PROVIDER=3 (LumeniteFX Kernel) -> Lumenite_Kernel (enabled)\n\
         [feed] NVSDK_NGX_D3D12_Init -> 0xBAD00001 (FeatureNotSupported)\n\
         stopped: the D3D12/NGX session failed to start.\n"
            .to_string(),
    );
    let f = run(setup(true), &l).unwrap();
    assert!(!says(&f, "motion-vector provider is not enabled"));
    assert!(says(&f, "NGX refused to initialise"));
    assert!(says(&f, "0.7.0 in the log is older"));
}

#[test]
fn healthy_session_says_so() {
    let mut l = no_logs();
    l.reshade = Some(
        "Initializing crosire's ReShade\nRegistered add-on \"DLSS 5 Neural Rendering\"\ninline feature 18 evaluation succeeded (count=60)\n"
            .to_string(),
    );
    l.feed = Some(
        "[feed] feature ready: 3840x2160 DLAA\n[feed] frame 1 delivered\n".to_string(),
    );
    let f = run(setup(true), &l).unwrap();
    assert!(f.iter().all(|x| x.level == Level::Fine), "{f:?}");
    assert!(says(&f, "raise NR Intensity"));
}

#[test]
fn the_second_log_is_read_where_there_is_no_first() {
    let mut l = no_logs();
    l.reshade2 = Some("Initializing crosire's ReShade\n".to_string());
    let f = run(setup(true), &l).unwrap();
    assert!(!says(&f, "never loaded"));
    assert!(f.len() > 1);
}

#[test]
fn a_game_that_cannot_be_read_is_not_diagnosed() {
    let mut found = setup(true);
    found.is_file = false;
    assert!(matches!(run(found, &no_logs()), Err(InspectError::NotFound)));
}

#[test]
fn findings_stand_in_reading_order() {
    let st = revengine_dlss5::game::inspect(setup(true)).unwrap();
    let f = diagnose(&st, &no_logs());
    assert_eq!(f.len(), 1);
    assert_eq!(f[0].level, Level::Bad);
}

#[test]
fn versions_compare_by_number() {
    assert_eq!(version_key("0.7.10"), vec![0, 7, 10]);
    assert!(older("0.7.9", "0.7.10"));
    assert!(!older("0.7.10", "0.7.10"));
    assert!(!older("1.0", "0.9.9"));
}
