use revengine_dlss5::anticheat::{detect_anticheat, known_anticheat_exe};
use revengine_dlss5::api::{
    classify_imports, detect_api, dlls_to_scan, has_agility_redist, Api,
};
use revengine_dlss5::exes::{find_game_exes, is_helper_name, resolve_target, Target};
use revengine_dlss5::game::{
    game_ships_dlss, inspect, installed_by_tool, is_dgvoodoo, is_reshade_dll, is_reshade_image,
    mode_override, mode_word, plugin_dirs, renodx_path, Found, GameStatus, InspectError, Mode,
    DLSS5_ADDON,
    DLSSNR_DLL, DLSS_DLL, DLSS_MARKER, FEEDER_ADDON, FEEDER_FX, LUMENITE_BLUENOISE,
    LUMENITE_KERNEL_FX, RENODX_MANIFEST,
};
use revengine_dlss5::gpu::{classify, Gpu, Tier};
use revengine_dlss5::pe::{exe_bitness, pe_import_fns, pe_imports, ExeError, PE_X64, PE_X86};
use revengine_dlss5::tree::{Kind, Node};

/// A disk in memory: files and folders by their path.
struct Disk {
    files: Vec<(String, Vec<u8>)>,
    dirs: Vec<String>,
}

impl Disk {
    fn new() -> Disk {
        Disk { files: Vec::new(), dirs: Vec::new() }
    }

    fn write(&mut self, path: &str, bytes: &[u8]) {
        self.files.retain(|f| f.0 != path);
        self.files.push((path.to_string(), bytes.to_vec()));
    }

    fn mkdir(&mut self, path: &str) {
        self.dirs.push(path.to_string());
    }

    fn remove(&mut self, path: &str) {
        let below = format!("{path}\\");
        self.files.retain(|f| f.0 != path && !f.0.starts_with(&below));
        self.dirs.retain(|d| d != path && !d.starts_with(&below));
    }

    fn read(&self, path: &str) -> Option<Vec<u8>> {
        self.files.iter().find(|f| f.0.eq_ignore_ascii_case(path)).map(|f| f.1.clone())
    }

    fn nodes(&self, dir: &str) -> Vec<Node> {
        let below = format!("{dir}\\");
        let mut out: Vec<Node> = Vec::new();
        let mut seen: Vec<String> = Vec::new();
        let all = self.files.iter().map(|f| (&f.0, true)).chain(self.dirs.iter().map(|d| (d, false)));
        for (path, is_file) in all {
            let Some(rest) = path.strip_prefix(below.as_str()) else {
                continue;
            };
            let name = rest.split('\\').next().unwrap().to_string();
            if seen.contains(&name) {
                continue;
            }
            seen.push(name.clone());
            let full = format!("{below}{name}");
            if is_file && rest == name {
                let bytes = self.read(&full).unwrap();
                out.push(Node {
                    name,
                    kind: Kind::File,
                    len: bytes.len() as u64,
                    bits: exe_bitness(&bytes).ok(),
                    children: Vec::new(),
                });
            } else {
                let children = self.nodes(&full);
                out.push(Node { name, kind: Kind::Dir, len: 0, bits: None, children });
            }
        }
        out
    }

    fn found(&self, exe: &str) -> Found {
        let dir = exe.rsplit_once('\\').unwrap().0;
        let folder = self.nodes(dir);
        let dlls = dlls_to_scan(&folder)
            .iter()
            .filter_map(|n| self.read(&format!("{dir}\\{n}")))
            .collect();
        let manifest = self
            .read(&format!("{dir}\\{RENODX_MANIFEST}"))
            .map(|b| String::from_utf8(b).unwrap());
        Found {
            exe: exe.to_string(),
            is_file: self.read(exe).is_some(),
            image: self.read(exe),
            plugins: plugin_dirs(dir).iter().map(|p| self.nodes(p)).collect(),
            dlls,
            proxy: self.read(&format!("{dir}\\dxgi.dll")),
            host_proxy: self.read(&format!("{dir}\\host64\\dxgi.dll")),
            d3d9: self.read(&format!("{dir}\\d3d9.dll")),
            folder,
            renodx_there: manifest
                .as_deref()
                .and_then(|t| renodx_path(&dir, t))
                .is_some_and(|p| self.read(&p).is_some()),
            renodx_manifest: manifest,
            gpu: None,
            skip_gpu_check: true,
            ignore_anticheat: false,
            mode_word: None,
        }
    }

    fn inspect(&self, exe: &str) -> GameStatus {
        inspect(self.found(exe)).unwrap()
    }
}

fn make_pe(machine: u16) -> Vec<u8> {
    let mut head = vec![0u8; 0x40];
    head[..2].copy_from_slice(b"MZ");
    head[0x3C..0x40].copy_from_slice(&0x40u32.to_le_bytes());
    let mut pe = b"PE\0\0".to_vec();
    pe.extend_from_slice(&machine.to_le_bytes());
    pe.extend_from_slice(&[0u8; 18]);
    head.extend_from_slice(&pe);
    head
}

/// A minimal PE32+ with one import descriptor for each library.
fn make_pe_importing(dlls: &[(&str, &[&str])]) -> Vec<u8> {
    let sec = 0x400usize;
    let mut img = vec![0u8; sec];
    img[..2].copy_from_slice(b"MZ");
    img[0x3C..0x40].copy_from_slice(&0x80u32.to_le_bytes());
    let pe = 0x80usize;
    img[pe..pe + 4].copy_from_slice(b"PE\0\0");
    img[pe + 4..pe + 6].copy_from_slice(&PE_X64.to_le_bytes());
    img[pe + 6..pe + 8].copy_from_slice(&1u16.to_le_bytes());
    let opt_size: u16 = 240;
    img[pe + 20..pe + 22].copy_from_slice(&opt_size.to_le_bytes());
    let opt = pe + 24;
    img[opt..opt + 2].copy_from_slice(&0x20Bu16.to_le_bytes());
    let mut blob: Vec<u8> = Vec::new();
    let at = |b: &Vec<u8>| (sec + b.len()) as u32;
    let mut parts: Vec<(u32, u32)> = Vec::new();
    for (dll, fns) in dlls {
        let mut name_rvas = Vec::new();
        for f in *fns {
            name_rvas.push(at(&blob));
            blob.extend_from_slice(&0u16.to_le_bytes());
            blob.extend_from_slice(f.as_bytes());
            blob.push(0);
        }
        let dll_rva = at(&blob);
        blob.extend_from_slice(dll.as_bytes());
        blob.push(0);
        while blob.len() % 8 != 0 {
            blob.push(0);
        }
        let thunk_rva = at(&blob);
        for r in &name_rvas {
            blob.extend_from_slice(&(*r as u64).to_le_bytes());
        }
        blob.extend_from_slice(&0u64.to_le_bytes());
        parts.push((dll_rva, thunk_rva));
    }
    let desc_rva = at(&blob);
    for (dll_rva, thunk_rva) in &parts {
        blob.extend_from_slice(&thunk_rva.to_le_bytes());
        blob.extend_from_slice(&[0u8; 8]);
        blob.extend_from_slice(&dll_rva.to_le_bytes());
        blob.extend_from_slice(&thunk_rva.to_le_bytes());
    }
    blob.extend_from_slice(&[0u8; 20]);
    img[opt + 120..opt + 124].copy_from_slice(&desc_rva.to_le_bytes());
    let sh = opt + opt_size as usize;
    img[sh + 8..sh + 12].copy_from_slice(&(blob.len() as u32).to_le_bytes());
    img[sh + 12..sh + 16].copy_from_slice(&(sec as u32).to_le_bytes());
    img[sh + 16..sh + 20].copy_from_slice(&(blob.len() as u32).to_le_bytes());
    img[sh + 20..sh + 24].copy_from_slice(&(sec as u32).to_le_bytes());
    img.extend_from_slice(&blob);
    img
}

fn make_reshade_dll() -> Vec<u8> {
    let mut b = b"MZ".to_vec();
    b.extend(vec![0u8; 1 << 20]);
    b.extend_from_slice(b"ReShade");
    b.extend_from_slice(&[0u8; 16]);
    b
}

/// The API of an image with nothing beside it.
fn api_alone(image: &[u8]) -> Api {
    detect_api(image, false, &[])
}

fn strings(v: &[&str]) -> Vec<String> {
    v.iter().map(|x| x.to_string()).collect()
}

#[test]
fn agility_redist_found_in_both_layouts() {
    let mut t = Disk::new();
    let d = r"C:\g";
    assert!(has_agility_redist(d, &t.nodes(d)).is_none());

    t.write(r"C:\g\D3D12Core.dll", b"x");
    assert_eq!(has_agility_redist(d, &t.nodes(d)).as_deref(), Some(r"C:\g\D3D12Core.dll"));

    t.mkdir(r"C:\g\D3D12");
    t.write(r"C:\g\D3D12\D3D12Core.dll", b"x");
    // The subfolder wins when a game somehow carries both.
    assert_eq!(has_agility_redist(d, &t.nodes(d)).as_deref(), Some(r"C:\g\D3D12\D3D12Core.dll"));
}

#[test]
fn bitness_x64_and_x86() {
    assert_eq!(exe_bitness(&make_pe(PE_X64)).unwrap(), 64);
    assert_eq!(exe_bitness(&make_pe(PE_X86)).unwrap(), 32);
}

#[test]
fn bitness_rejects_non_pe() {
    assert!(exe_bitness(b"hello").is_err());
}

#[test]
fn bitness_says_why() {
    assert_eq!(exe_bitness(b"hello"), Err(ExeError::NotWindows));
    let mut b = make_pe(PE_X64);
    b[0] = b'Z';
    assert_eq!(exe_bitness(&b), Err(ExeError::NotWindows));
    let mut b = make_pe(PE_X64);
    b[0x40] = b'Q';
    assert_eq!(exe_bitness(&b), Err(ExeError::NoHeader));
    let mut b = make_pe(PE_X64);
    b[0x3C..0x40].copy_from_slice(&0xFFFF_FFF0u32.to_le_bytes());
    assert_eq!(exe_bitness(&b), Err(ExeError::NoHeader));
    assert_eq!(exe_bitness(&make_pe(0xAA64)), Err(ExeError::Machine(0xAA64)));
}

#[test]
fn reshade_dll_needs_marker_and_size() {
    assert!(!is_reshade_dll(&Some(b"ReShade".to_vec())));
    assert!(is_reshade_dll(&Some(make_reshade_dll())));
    assert!(!is_reshade_dll(&None));
    assert!(!is_reshade_dll(&Some(vec![0u8; 1 << 21])));
}

#[test]
fn inspect_empty_and_32bit() {
    let mut t = Disk::new();
    t.write(r"C:\g\game.exe", &make_pe(PE_X64));
    let st = t.inspect(r"C:\g\game.exe");
    assert_eq!(st.bitness, 64);
    assert!(
        !st.reshade
            && !st.headers
            && !st.feeder
            && !st.lumenite
            && !st.dlss5_addon
            && !st.dlssnr
            && !st.dlss
    );
    assert!(!st.complete());
    assert!(st.problems.is_empty());

    t.write(r"C:\g\g32.exe", &make_pe(PE_X86));
    let st = t.inspect(r"C:\g\g32.exe");
    assert!(st.is32() && st.mode == Mode::Feeder);
    assert!(!st.problems.iter().any(|p| p.contains("32-bit")));
}

#[test]
fn inspect_says_why_not() {
    let t = Disk::new();
    let mut f = t.found(r"C:\g\game.exe");
    assert!(matches!(inspect(f), Err(InspectError::NotFound)));
    f = t.found(r"C:\g\game.exe");
    f.is_file = true;
    assert!(matches!(inspect(f), Err(InspectError::CannotOpen)));
    f = t.found(r"C:\g\game.exe");
    f.is_file = true;
    f.image = Some(b"hello".to_vec());
    assert!(matches!(inspect(f), Err(InspectError::Exe(ExeError::NotWindows))));
    f = t.found(r"C:\g\game.exe");
    f.exe = r"C:\".to_string();
    f.is_file = true;
    assert!(matches!(inspect(f), Err(InspectError::NoParent)));
    assert!(InspectError::NotFound.text(r"C:\g\game.exe").contains(r"C:\g\game.exe"));
}

#[test]
fn find_game_exes_falls_back_to_32bit_when_no_64bit_exists() {
    let mut t = Disk::new();
    let d = r"C:\t\Max Payne";
    t.write(r"C:\t\Max Payne\maxpayne.exe", &make_pe(PE_X86));
    assert_eq!(find_game_exes(d, &t.nodes(d)), vec![r"C:\t\Max Payne\maxpayne.exe"]);
}

#[test]
fn the_recorded_mod_counts_where_its_file_is() {
    let mut t = Disk::new();
    let exe = r"C:\g\game.exe";
    t.write(exe, &make_pe(PE_X64));
    t.write(r"C:\g\sub\renodx-a.addon64", b"x");
    t.write(r"D:\b.addon64", b"x");
    let mut named = |text: &str| {
        t.write(&format!(r"C:\g\{RENODX_MANIFEST}"), text.as_bytes());
        t.inspect(exe).renodx_mod
    };
    assert_eq!(named("renodx-a.addon64\n"), None);
    assert_eq!(named(" sub\\renodx-a.addon64\n").as_deref(), Some("sub\\renodx-a.addon64"));
    assert_eq!(named("D:\\b.addon64").as_deref(), Some("D:\\b.addon64"));
    assert_eq!(named(" \n"), None);
    assert_eq!(renodx_path(r"C:\g", " a \n").as_deref(), Some(r"C:\g\a"));
}

#[test]
fn the_larger_file_leads_whatever_its_size() {
    let exe = |name: &str, len: u64| Node {
        name: name.to_string(),
        kind: Kind::File,
        len,
        bits: Some(64),
        children: Vec::new(),
    };
    let d = r"C:\t\Foo";
    let nodes = [exe("alpha.exe", 450_000_000), exe("beta.exe", 600_000_000)];
    assert_eq!(find_game_exes(d, &nodes), vec![r"C:\t\Foo\beta.exe", r"C:\t\Foo\alpha.exe"]);
    // A name counts for more than any size, and a shipping build for more still.
    let nodes = [
        exe("beta.exe", 9_000_000_000),
        exe("foo.exe", 700_000),
        exe("x-Win64-Shipping.exe", 1),
        exe("alpha.exe", 9_000_000_000),
    ];
    assert_eq!(
        find_game_exes(d, &nodes),
        vec![
            r"C:\t\Foo\x-Win64-Shipping.exe",
            r"C:\t\Foo\foo.exe",
            r"C:\t\Foo\beta.exe",
            r"C:\t\Foo\alpha.exe"
        ]
    );
    // The folder itself under another name.
    assert_eq!(
        find_game_exes(r"C:\t\Foo\.", &nodes[..2])[0],
        r"C:\t\Foo\.\foo.exe"
    );
}

#[test]
fn find_game_exes_skips_helpers_and_prefers_folder_name() {
    let mut t = Disk::new();
    let d = r"C:\t\Fell & Sell";
    t.write(r"C:\t\Fell & Sell\UnityCrashHandler64.exe", &make_pe(PE_X64));
    t.write(r"C:\t\Fell & Sell\tool32.exe", &make_pe(PE_X86));
    t.write(r"C:\t\Fell & Sell\Fell & Sell.exe", &make_pe(PE_X64));
    let c = find_game_exes(d, &t.nodes(d));
    assert_eq!(c, vec![r"C:\t\Fell & Sell\Fell & Sell.exe"]);
    let (exe, all) = resolve_target(d, Target::Folder, &t.nodes(d)).unwrap();
    assert_eq!(exe, r"C:\t\Fell & Sell\Fell & Sell.exe");
    assert_eq!(all.len(), 1);
}

#[test]
fn optiscaler_is_not_mistaken_for_reshade() {
    assert!(is_reshade_image(b"...crosire's ReShade version '6.8.0.2155'..."));
    assert!(!is_reshade_image(b"OptiScaler ... LoadReshade ... ReShade64.dll ..."));
    // A ReShade build without the author's name is still ReShade.
    assert!(is_reshade_image(b"ReShade effect runtime"));
    assert!(!is_reshade_image(b"some other dxgi wrapper"));
}

#[test]
fn d3d9_debug_markers_alone_are_not_a_d3d9_game() {
    let markers =
        make_pe_importing(&[("d3d9.dll", &["D3DPERF_BeginEvent", "D3DPERF_EndEvent"][..])]);
    assert_eq!(
        pe_import_fns(&markers, "d3d9.dll"),
        vec!["d3dperf_beginevent", "d3dperf_endevent"]
    );
    assert_eq!(pe_imports(&markers), vec!["d3d9.dll"]);
    assert_eq!(api_alone(&markers), Api::Unknown);

    // A real Direct3D 9 renderer still reads as one.
    let real = make_pe_importing(&[("d3d9.dll", &["Direct3DCreate9", "D3DPERF_BeginEvent"][..])]);
    assert_eq!(api_alone(&real), Api::Dx9);

    // Direct3D 9 predates DXGI, so a PE importing both is not a D3D9 game
    // however it uses d3d9.dll - it creates its real device at runtime.
    let dxgi = make_pe_importing(&[
        ("d3d9.dll", &["Direct3DCreate9"][..]),
        ("dxgi.dll", &["CreateDXGIFactory1"][..]),
    ]);
    assert_eq!(api_alone(&dxgi), Api::Unknown);

    // Red Dead Redemption 2's own import table (#53): a real
    // Direct3DCreate9Ex import, no dxgi.dll at all, and the FSR2 and Reflex
    // libraries for D3D12 and Vulkan beside it.
    let rdr2 = make_pe_importing(&[
        ("d3d9.dll", &["Direct3DCreate9Ex"][..]),
        ("nvlowlatencyvk.dll", &["NvLL_VK_Initialize"][..]),
        ("ffx_fsr2_api_dx12_x64.dll", &["ffxFsr2GetInterfaceDX12"][..]),
        ("ffx_fsr2_api_vk_x64.dll", &["ffxFsr2GetInterfaceVK"][..]),
    ]);
    assert_eq!(api_alone(&rdr2), Api::Unknown);
}

#[test]
fn classify_imports_reads_d3d9() {
    assert_eq!(classify_imports(&strings(&["d3d9.dll"])), Api::Dx9);
    // A game that also uses something newer is not a D3D9 game.
    assert_eq!(classify_imports(&strings(&["d3d9.dll", "d3d11.dll"])), Api::Dx11);
    assert_eq!(classify_imports(&strings(&["d3d9.dll", "d3d12.dll"])), Api::Dx12);
}

#[test]
fn classify_imports_reads_vulkan() {
    assert_eq!(classify_imports(&strings(&["vulkan-1.dll"])), Api::Vulkan);
    // A game offering both still takes the Direct3D path.
    assert_eq!(classify_imports(&strings(&["vulkan-1.dll", "d3d12.dll"])), Api::Dx12);
    assert_eq!(classify_imports(&strings(&["vulkan-1.dll", "d3d11.dll"])), Api::Dx11);
}

#[test]
fn classify_imports_reads_d3d10() {
    assert_eq!(classify_imports(&strings(&["d3d10_1.dll", "d3d9.dll"])), Api::Dx10);
    assert_eq!(classify_imports(&strings(&["d3d10.dll"])), Api::Dx10);
    // The newer APIs still win when both are imported.
    assert_eq!(classify_imports(&strings(&["d3d10_1.dll", "d3d11.dll"])), Api::Dx11);
    assert_eq!(classify_imports(&strings(&["d3d10_1.dll", "d3d12.dll"])), Api::Dx12);
    assert_eq!(classify_imports(&strings(&["kernel32.dll"])), Api::Unknown);
}

#[test]
fn find_game_exes_finds_shipping_exe_under_engine_binaries() {
    let mut t = Disk::new();
    let d = r"C:\t\SatisfactoryEarlyAccess";
    t.write(&format!(r"{d}\FactoryGameEGS.exe"), &make_pe(PE_X64));
    let eng = format!(r"{d}\Engine\Binaries\Win64");
    let real = format!(r"{eng}\FactoryGameEGS-Win64-Shipping.exe");
    t.write(&real, &make_pe(PE_X64));
    t.write(&format!(r"{eng}\CrashReportClient.exe"), &make_pe(PE_X64));
    let (exe, all) = resolve_target(d, Target::Folder, &t.nodes(d)).unwrap();
    assert_eq!(exe, real);
    assert!(all.contains(&format!(r"{d}\FactoryGameEGS.exe")));
}

#[test]
fn find_game_exes_skips_redistributables_and_setup_exes() {
    let mut t = Disk::new();
    let d = r"C:\t\Red Dead Redemption 2";
    let game = format!(r"{d}\RDR2.exe");
    t.write(&game, &make_pe(PE_X64));
    let big = format!(r"{d}\Redistributables\SocialClub\Social-Club-Setup.exe");
    let mut bytes = make_pe(PE_X64);
    bytes.extend(vec![0u8; 4_000_000]);
    t.write(&big, &bytes);
    let found = find_game_exes(d, &t.nodes(d));
    assert_eq!(found.first(), Some(&game));
    assert!(!found.iter().any(|p| p.contains("Redistributables")));
    t.write(&big, &make_pe(PE_X64));
    let found = find_game_exes(d, &t.nodes(d));
    assert_eq!(found.first(), Some(&game));
    assert!(!found.iter().any(|p| p.contains("Redistributables")));
}

#[test]
fn find_game_exes_accepts_bin_launchers() {
    let mut t = Disk::new();
    t.write(r"C:\t\Aion\aion.bin", &make_pe(PE_X64));
    assert_eq!(find_game_exes(r"C:\t\Aion", &t.nodes(r"C:\t\Aion")), vec![r"C:\t\Aion\aion.bin"]);

    // A .bin that is not a PE at all is still ignored.
    t.write(r"C:\t\Game\data.bin", b"not a PE, just data");
    assert!(find_game_exes(r"C:\t\Game", &t.nodes(r"C:\t\Game")).is_empty());
}

#[test]
fn find_game_exes_finds_exe_four_levels_down() {
    let mut t = Disk::new();
    let d = r"C:\t\Dying Light The Beast";
    let exe = format!(r"{d}\ph_ft\work\bin\x64\DyingLightGame_TheBeast_x64_rwdi.exe");
    t.write(&exe, &make_pe(PE_X64));
    assert_eq!(find_game_exes(d, &t.nodes(d)), vec![exe]);

    // Five levels down is still out of reach, and content trees stay skipped.
    let d2 = r"C:\t2\Game";
    t.write(&format!(r"{d2}\a\b\c\d\e\Game.exe"), &make_pe(PE_X64));
    t.write(&format!(r"{d2}\Content\bin\Game.exe"), &make_pe(PE_X64));
    assert!(find_game_exes(d2, &t.nodes(d2)).is_empty());
}

#[test]
fn find_game_exes_unreal_layout_prefers_shipping() {
    let mut t = Disk::new();
    let d = r"C:\t\SomeGame";
    let bin = format!(r"{d}\SomeGame\Binaries\Win64");
    t.write(&format!(r"{d}\SomeGame.exe"), &make_pe(PE_X64));
    t.write(&format!(r"{bin}\SomeGame-Win64-Shipping.exe"), &make_pe(PE_X64));
    t.write(&format!(r"{bin}\CrashReportClient.exe"), &make_pe(PE_X64));
    let c = find_game_exes(d, &t.nodes(d));
    assert_eq!(c[0], format!(r"{bin}\SomeGame-Win64-Shipping.exe"));
    assert_eq!(c.len(), 2);
    assert!(resolve_target(r"C:\t\nope", Target::Nothing, &[]).is_err());
    assert!(resolve_target(r"C:\t\empty", Target::Folder, &[]).is_err());
}

#[test]
fn a_file_is_its_own_target() {
    let r = resolve_target(r"C:\t\any.exe", Target::File, &[]).unwrap();
    assert_eq!(r.0, r"C:\t\any.exe");
}

#[test]
fn helpers_are_told_by_name() {
    assert!(is_helper_name("unitycrashhandler64"));
    assert!(!is_helper_name("maxpayne"));
}

#[test]
fn native_mode_when_game_ships_dlss() {
    let mut t = Disk::new();
    let exe = r"C:\g\game.exe";
    t.write(exe, &make_pe(PE_X64));
    let st = t.inspect(exe);
    assert_eq!(st.mode, Mode::Feeder);
    assert_eq!(st.api, Api::Unknown);
    // nested nvngx_dlss.dll (Unreal-style plugin folder) -> native
    let deep = format!(r"C:\g\Engine\Plugins\DLSS\{DLSS_DLL}");
    t.write(&deep, b"x");
    let st = t.inspect(exe);
    assert_eq!(st.mode, Mode::Native);
    assert!(!st.complete());
    // our own copy (with sidecar marker) does not count
    t.remove(&deep);
    t.write(&format!(r"C:\g\{DLSS_DLL}"), b"x");
    t.write(&format!(r"C:\g\{DLSS_MARKER}"), b"");
    assert_eq!(t.inspect(exe).mode, Mode::Feeder);
    // Streamline runtime alone is a DLSS signal
    t.write(r"C:\g\sl.interposer.dll", b"x");
    assert_eq!(t.inspect(exe).mode, Mode::Native);
}

#[test]
fn pe_imports_handles_stub_pe() {
    let exe = make_pe(PE_X64);
    assert!(pe_imports(&exe).is_empty());
    assert_eq!(api_alone(&exe), Api::Unknown);
}

#[test]
fn dgvoodoo_turns_a_d3d9_game_into_the_d3d11_path() {
    let mut t = Disk::new();
    let exe = r"C:\g\SporeApp.exe";
    let image = make_pe_importing(&[("d3d9.dll", &["Direct3DCreate9"][..])]);
    t.write(exe, &image);
    assert_eq!(api_alone(&image), Api::Dx9);
    let st = t.inspect(exe);
    assert_eq!(st.api, Api::Dx9);
    assert!(st.problems.iter().any(|p| p.contains("DirectX 9 game")));

    // dgVoodoo2 in place: no refusal, and the D3D11 path from there on.
    t.write(r"C:\g\dgVoodoo.conf", b"[General]");
    t.write(r"C:\g\d3d9.dll", b"MZ...dgVoodoo2 wrapper...");
    let st = t.inspect(exe);
    assert_eq!(st.api, Api::Dx11);
    assert!(!st.problems.iter().any(|p| p.contains("DirectX 9 game")));
    assert!(!st.problems.iter().any(|p| p.contains("d3d9.dll proxy")));
}

#[test]
fn dgvoodoo_d3d9_is_allowed_other_d3d9_is_not() {
    let mut t = Disk::new();
    let exe = r"C:\g\game.exe";
    let d3d9 = r"C:\g\d3d9.dll";
    t.write(exe, &make_pe(PE_X86));
    t.write(d3d9, b"MZ some other wrapper");
    assert!(t.inspect(exe).problems.iter().any(|p| p.contains("d3d9.dll proxy")));
    t.write(r"C:\g\dgVoodoo.conf", b"[General]");
    assert!(is_dgvoodoo(&t.nodes(r"C:\g"), &t.read(d3d9)));
    assert!(!t.inspect(exe).problems.iter().any(|p| p.contains("d3d9.dll proxy")));
    t.remove(r"C:\g\dgVoodoo.conf");
    t.write(d3d9, b"MZ...dgVoodoo2 wrapper...");
    assert!(is_dgvoodoo(&t.nodes(r"C:\g"), &t.read(d3d9)));
}

#[test]
fn anticheat_detected_and_refused() {
    let mut t = Disk::new();
    let d = r"C:\g";
    let exe = r"C:\g\game.exe";
    t.write(exe, &make_pe(PE_X64));
    assert_eq!(detect_anticheat(&t.nodes(d)), None);
    t.write(r"C:\g\tools\GGSetup.exe", b"x");
    assert_eq!(detect_anticheat(&t.nodes(d)), Some("GameGuard"));
    let st = t.inspect(exe);
    assert!(st.problems.iter().any(|p| p.contains("GameGuard")));
    assert_eq!(st.anticheat, Some("GameGuard"));
    t.remove(r"C:\g\tools");
    t.mkdir(r"C:\g\Game\Binaries\Win64\EasyAntiCheat");
    assert_eq!(detect_anticheat(&t.nodes(d)), Some("Easy Anti-Cheat"));
    t.remove(r"C:\g\Game");
    t.write(r"C:\g\Foo_BE.exe", b"x");
    assert_eq!(detect_anticheat(&t.nodes(d)), Some("BattlEye"));
}

#[test]
fn a_switched_off_anticheat_is_no_problem() {
    let mut t = Disk::new();
    t.write(r"C:\g\game.exe", &make_pe(PE_X64));
    t.write(r"C:\g\Foo_BE.exe", b"x");
    let mut f = t.found(r"C:\g\game.exe");
    f.ignore_anticheat = true;
    let st = inspect(f).unwrap();
    assert_eq!(st.anticheat, Some("BattlEye"));
    assert!(st.problems.is_empty());
    assert_eq!(known_anticheat_exe(r"C:\g\game.exe"), None);
}

#[test]
fn upstream_counts_as_the_neural_consumer() {
    let mut t = Disk::new();
    t.write(r"C:\g\game.exe", &make_pe(PE_X64));
    let mut st = t.inspect(r"C:\g\game.exe");
    st.mode = Mode::Native;
    st.api = Api::Dx12;
    st.reshade = true;
    st.dlssnr = true;
    assert!(!st.complete());
    st.upstream = true;
    assert!(st.complete());
}

#[test]
fn inspect_complete() {
    let mut t = Disk::new();
    let exe = r"C:\g\game.exe";
    t.write(exe, &make_pe(PE_X64));
    t.write(r"C:\g\dxgi.dll", &make_reshade_dll());
    for f in [FEEDER_ADDON, DLSS5_ADDON, DLSSNR_DLL, DLSS_DLL] {
        t.write(&format!(r"C:\g\{f}"), b"x");
    }
    let sh = r"C:\g\reshade-shaders\Shaders";
    for h in ["ReShade.fxh", "ReShadeUI.fxh", "DrawText.fxh"] {
        t.write(&format!(r"{sh}\{h}"), b"// header");
    }
    t.write(&format!(r"{sh}\{FEEDER_FX}"), b"technique DLSS5_Feed {}");
    t.write(&format!(r"{sh}\{LUMENITE_KERNEL_FX}"), b"technique Lumenite_Kernel {}");
    t.write(&format!(r"C:\g\reshade-shaders\Textures\{LUMENITE_BLUENOISE}"), b"png");
    assert!(t.inspect(exe).complete());
}

#[test]
fn the_mode_can_be_forced() {
    assert_eq!(mode_override(Some("Native")), Some(Mode::Native));
    assert_eq!(mode_override(Some("feeder")), Some(Mode::Feeder));
    assert_eq!(mode_override(Some("auto")), None);
    assert_eq!(mode_override(None), None);
    for m in [Mode::Native, Mode::Feeder] {
        assert_eq!(mode_override(mode_word(Some(m))), Some(m));
    }
    let mut t = Disk::new();
    t.write(r"C:\g\game.exe", &make_pe(PE_X64));
    let mut f = t.found(r"C:\g\game.exe");
    f.mode_word = Some("native".to_string());
    let st = inspect(f).unwrap();
    assert_eq!(st.mode, Mode::Native);
    assert_eq!(st.mode_detected, Mode::Feeder);
}

#[test]
fn a_card_without_tensor_cores_is_a_problem() {
    let mut t = Disk::new();
    t.write(r"C:\g\game.exe", &make_pe(PE_X64));
    let name = "NVIDIA GeForce GTX 1080";
    let mut f = t.found(r"C:\g\game.exe");
    f.gpu = Some((Gpu { name: name.to_string() }, classify(name)));
    f.skip_gpu_check = false;
    assert_eq!(classify(name), Tier::NoTensorCores);
    assert_eq!(inspect(f).unwrap().problems.len(), 1);
    let name = "NVIDIA GeForce RTX 5080";
    let mut f = t.found(r"C:\g\game.exe");
    f.gpu = Some((Gpu { name: name.to_string() }, classify(name)));
    f.skip_gpu_check = false;
    assert_eq!(classify(name), Tier::Rtx50);
    assert!(inspect(f).unwrap().problems.is_empty());
}

#[test]
fn the_folders_of_a_game() {
    let mut t = Disk::new();
    t.write(r"C:\g\g32.exe", &make_pe(PE_X86));
    let st = t.inspect(r"C:\g\g32.exe");
    assert_eq!(st.game_dir(), r"C:\g");
    assert_eq!(st.consumer_dir(), r"C:\g\host64");
    assert!(!st.needs_bridge());
    assert!(st.reshade_engine_problem().is_none());
    assert!(!installed_by_tool(&t.nodes(r"C:\g")));
    assert!(!game_ships_dlss(&t.nodes(r"C:\g"), &[]));
}
