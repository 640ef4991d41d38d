//! What is in a game's folder: the executable, ReShade, the installed pieces.
use vstd::prelude::*;

use crate::anticheat::{anticheat_in, detect_anticheat, known_anticheat, known_anticheat_exe};
use crate::api::{agility, byte_views, detect_api, found_api, has_agility_redist, Api};
use crate::bytes::{has_text, has_text_fold, holds_text, holds_text_fold};
use crate::chars::{lower, lower_string};
use crate::gpu::{Gpu, Tier};
use crate::numbers::{hex, hex_text};
use crate::paths::{joined, name_of, parent_of, path_join, path_name, path_parent};
use crate::pe::{bitness, exe_bitness, ExeError};
use crate::renodx::{foreign_in, foreign_mods};
use crate::strs::{
    ends, ends_with, eq_fold, opt_string, opt_text, same_fold, starts, starts_with, str_eq, texts,
    texts_push, trim, trimmed,
};
use crate::tree::{find_folder, folder, has_file, holds_file, Kind, Node};

verus! {

pub const FEEDER_ADDON: &'static str = "dlss5-feed.addon64";

/// 32-bit games: the in-game half of the Feeder, and the 64-bit helper folder
/// beside the exe that holds everything a 32-bit process cannot load.
pub const FEEDER_ADDON32: &'static str = "dlss5-feed.addon32";

pub const HOST_DIR: &'static str = "host64";

pub const HOST_EXE: &'static str = "dlss5-feed-host64.exe";

pub const FEEDER_FX: &'static str = "DLSS5_Feed.fx";

pub const DLSS5_ADDON: &'static str = "renodx-dlss5.addon64";

pub const DLSSNR_DLL: &'static str = "nvngx_dlssnr.dll";

pub const DLSS_DLL: &'static str = "nvngx_dlss.dll";

pub const LUMENITE_KERNEL_FX: &'static str = "lumenite_Kernel.fx";

pub const LUMENITE_BLUENOISE: &'static str = "lumenite_bluenoise256.png";

pub const BRIDGE_ADDON: &'static str = "dlss5-bridge.addon64";

/// The bridge under the name of its first releases.
pub const BRIDGE_ADDON_OLD: &'static str = "dlss5-dx11-bridge.addon64";

/// The neural-upstream add-on. NGX gates feature creation on the calling
/// module's path containing `nvngx.dll`, so the name is not free.
pub const UPSTREAM_ADDON: &'static str = "nvngx.dll.addon64";

/// Files this tool wrote for an OptiScaler install, one path per line.
pub const OPTI_MANIFEST: &'static str = ".revengine-dlss5-optiscaler-manifest";

/// Sidecar next to an `nvngx_dlss.dll` this tool placed, so it is never
/// mistaken for the game's own.
pub const DLSS_MARKER: &'static str = "nvngx_dlss.dll.revengine-dlss5";

/// The same for the neural model and for ReShade: the release that this tool
/// placed, so that ours and stale can be told from the user's own.
pub const DLSSNR_MARKER: &'static str = "nvngx_dlssnr.dll.revengine-dlss5";

pub const RESHADE_MARKER: &'static str = "dxgi.dll.revengine-dlss5";

/// The DLSS5-Feeder release that this tool placed.
pub const FEEDER_MARKER: &'static str = "dlss5-feed.revengine-dlss5";

pub const RESHADE_PROXY: &'static str = "dxgi.dll";

/// Name of the RenoDX game mod this tool placed (one line), so Remove takes
/// only that one.
pub const RENODX_MANIFEST: &'static str = ".revengine-dlss5-renodx";

/// REFramework loads as dinput8.dll; RE Engine games crash under ReShade
/// without it.
pub const REFRAMEWORK_DLL: &'static str = "dinput8.dll";

pub const REFRAMEWORK_MARKER: &'static str = ".revengine-dlss5-reframework";

/// Every RE Engine game keeps its base archive under this name next to the exe.
pub const RE_ENGINE_PAK: &'static str = "re_chunk_000.pak";

pub const RESHADE_INI: &'static str = "ReShade.ini";

pub const RESHADE_PRESET: &'static str = "ReShadePreset.ini";

pub const IGNORE_ANTICHEAT_ENV: &'static str = "REVENGINE_DLSS5_IGNORE_ANTICHEAT";

/// `feeder` or `native`: override the DLSS detection.
pub const MODE_ENV: &'static str = "REVENGINE_DLSS5_MODE";

pub const SKIP_GPU_ENV: &'static str = "REVENGINE_DLSS5_SKIP_GPU_CHECK";

/// Other names of the two switches, which are read too.
pub const IGNORE_ANTICHEAT_ENV_TOO: &'static str = "DLSS5ONECLICK_IGNORE_ANTICHEAT";

pub const SKIP_GPU_ENV_TOO: &'static str = "DLSS5ONECLICK_SKIP_GPU_CHECK";

/// How large a ReShade library is at least.
pub const RESHADE_MIN_LEN: usize = 1048576;

/// The bytes of a ReShade build. OptiScaler's library names ReShade too, because
/// it can load it; the author's name is in every real build and in none of
/// OptiScaler's, and a build that lacks it still counts unless it says
/// OptiScaler.
pub open spec fn is_reshade(b: Seq<u8>) -> bool {
    holds_text(b, "ReShade"@) && (holds_text(b, "crosire"@) || !holds_text(b, "OptiScaler"@))
}

pub fn is_reshade_image(bytes: &[u8]) -> (r: bool)
    ensures
        r == is_reshade(bytes@),
{
    has_text(bytes, "ReShade") && (has_text(bytes, "crosire") || !has_text(bytes, "OptiScaler"))
}

/// The bytes of a file that may not be there are those of a ReShade proxy.
pub open spec fn is_reshade_file(f: Option<Vec<u8>>) -> bool {
    match f {
        Some(b) => b@.len() >= RESHADE_MIN_LEN && is_reshade(b@),
        None => false,
    }
}

/// A ReShade proxy library carries a literal "ReShade" string and is of one MB
/// at least.
pub fn is_reshade_dll(file: &Option<Vec<u8>>) -> (r: bool)
    ensures
        r == is_reshade_file(*file),
{
    match file {
        Some(b) => b.len() >= RESHADE_MIN_LEN && is_reshade_image(b.as_slice()),
        None => false,
    }
}

/// Which install path applies to a game.
#[derive(Debug, Clone, Copy, PartialEq, Eq, Structural)]
pub enum Mode {
    /// Game has no DLSS: DLSS5-Feeder + LumeniteFX fake the DLSS contract.
    Feeder,
    /// Game ships its own DLSS: the DLSS 5 add-on hooks the game's NGX calls
    /// directly (plus the bridge when the game renders with D3D11).
    Native,
}

/// dgVoodoo2 is next to the exe: its own config or control panel, or its name
/// inside the wrapper library.
pub open spec fn dgvoodoo_in(dir: Seq<Node>, d3d9: Option<Vec<u8>>) -> bool {
    ||| has_file(dir, "dgVoodoo.conf"@)
    ||| has_file(dir, "dgVoodooCpl.exe"@)
    ||| (match d3d9 {
        Some(b) => holds_text_fold(b@, "dgVoodoo"@),
        None => false,
    })
}

/// dgVoodoo2 next to the exe: it translates D3D9 to D3D11, which the Feeder
/// supports. `d3d9` holds the bytes of the folder's d3d9.dll, where it has one.
pub fn is_dgvoodoo(game_dir: &[Node], d3d9: &Option<Vec<u8>>) -> (r: bool)
    ensures
        r == dgvoodoo_in(game_dir@, *d3d9),
{
    holds_file(game_dir, "dgVoodoo.conf") || holds_file(game_dir, "dgVoodooCpl.exe") || match d3d9 {
        Some(b) => has_text_fold(b.as_slice(), "dgVoodoo"),
        None => false,
    }
}

/// How many levels of subfolders are searched for DLSS, below the exe and below
/// an Unreal project's plugins.
pub const DLSS_DEPTH: u8 = 4;

pub const PLUGIN_DEPTH: u8 = 7;

/// A file that only a game with DLSS ships: an `nvngx_dlss.dll` that this tool
/// did not place, or a Streamline, frame-generation or ray-reconstruction
/// runtime.
pub open spec fn is_dlss_file(nodes: Seq<Node>, n: Node) -> bool {
    let l = lower(n.name@);
    &&& n.kind == Kind::File
    &&& (l == DLSS_DLL@ && !has_file(nodes, DLSS_MARKER@)) || l == "nvngx_dlssg.dll"@ || l
        == "nvngx_dlssd.dll"@ || (starts(l, "sl."@) && ends(l, ".dll"@))
}

/// Such a file is in the folder, or in one of its subfolders down to `depth`.
pub open spec fn ships_dlss(nodes: Seq<Node>, depth: nat) -> bool
    decreases depth,
{
    exists|i: int|
        0 <= i < nodes.len() && (is_dlss_file(nodes, #[trigger] nodes[i]) || (depth > 0
            && nodes[i].kind == Kind::Dir && ships_dlss(nodes[i].children@, (depth - 1) as nat)))
}

fn walk_dlss(nodes: &[Node], depth: u8) -> (r: bool)
    ensures
        r == ships_dlss(nodes@, depth as nat),
    decreases depth,
{
    let mut i: usize = 0;
    while i < nodes.len()
        invariant
            i <= nodes@.len(),
            forall|j: int|
                0 <= j < i ==> !(is_dlss_file(nodes@, #[trigger] nodes@[j]) || (depth > 0
                    && nodes@[j].kind == Kind::Dir && ships_dlss(
                    nodes@[j].children@,
                    (depth - 1) as nat,
                ))),
        decreases nodes@.len() - i,
    {
        let n = &nodes[i];
        let hit = if n.kind == Kind::File {
            let low = lower_string(n.name.as_str());
            let l = low.as_str();
            (str_eq(l, DLSS_DLL) && !holds_file(nodes, DLSS_MARKER)) || str_eq(
                l,
                "nvngx_dlssg.dll",
            ) || str_eq(l, "nvngx_dlssd.dll") || (starts_with(l, "sl.") && ends_with(l, ".dll"))
        } else {
            depth > 0 && n.kind == Kind::Dir && walk_dlss(n.children.as_slice(), depth - 1)
        };
        if hit {
            assert(is_dlss_file(nodes@, nodes@[i as int]) || (depth > 0 && nodes@[i as int].kind
                == Kind::Dir && ships_dlss(nodes@[i as int].children@, (depth - 1) as nat)));
            return true;
        }
        i += 1;
    }
    false
}

/// The plugin folders of an Unreal project: the exe lies in
/// `<Project>\Binaries\Win64`, DLSS under `<Project>\Plugins` or under the
/// engine's.
pub open spec fn plugin_folders(game_dir: Seq<char>) -> Seq<Seq<char>> {
    match parent_of(game_dir) {
        Some(b) => match (name_of(b), parent_of(b)) {
            (Some(n), Some(proj)) => if same_fold(n, "binaries"@) {
                seq![joined(proj, "Plugins"@)] + (match parent_of(proj) {
                    Some(root) => seq![joined(joined(root, "Engine"@), "Plugins"@)],
                    None => Seq::empty(),
                })
            } else {
                Seq::empty()
            },
            _ => Seq::empty(),
        },
        None => Seq::empty(),
    }
}

/// The folders besides the game's own in which a game keeps DLSS.
pub fn plugin_dirs(game_dir: &str) -> (r: Vec<String>)
    ensures
        texts(r@) == plugin_folders(game_dir@),
{
    broadcast use texts_push;

    let mut out: Vec<String> = Vec::new();
    assert(texts(out@) =~= Seq::empty());
    if let Some(b) = path_parent(game_dir) {
        if let (Some(n), Some(proj)) = (path_name(b.as_str()), path_parent(b.as_str())) {
            if eq_fold(n.as_str(), "binaries") {
                out.push(path_join(proj.as_str(), "Plugins"));
                if let Some(root) = path_parent(proj.as_str()) {
                    let engine = path_join(root.as_str(), "Engine");
                    out.push(path_join(engine.as_str(), "Plugins"));
                }
                assert(texts(out@) =~= plugin_folders(game_dir@));
            }
        }
    }
    out
}

/// The game's folder, or one of its plugin folders, ships DLSS.
pub open spec fn dlss_in(dir: Seq<Node>, plugins: Seq<Vec<Node>>) -> bool {
    ships_dlss(dir, DLSS_DEPTH as nat) || exists|i: int|
        0 <= i < plugins.len() && ships_dlss((#[trigger] plugins[i])@, PLUGIN_DEPTH as nat)
}

/// True if the game ships its own DLSS. `plugins` holds what is in the plugin
/// folders.
pub fn game_ships_dlss(game_dir: &[Node], plugins: &[Vec<Node>]) -> (r: bool)
    ensures
        r == dlss_in(game_dir@, plugins@),
{
    if walk_dlss(game_dir, DLSS_DEPTH) {
        return true;
    }
    let mut i: usize = 0;
    while i < plugins.len()
        invariant
            i <= plugins@.len(),
            forall|j: int|
                0 <= j < i ==> !ships_dlss((#[trigger] plugins@[j])@, PLUGIN_DEPTH as nat),
        decreases plugins@.len() - i,
    {
        if walk_dlss(plugins[i].as_slice(), PLUGIN_DEPTH) {
            assert(ships_dlss(plugins@[i as int]@, PLUGIN_DEPTH as nat));
            return true;
        }
        i += 1;
    }
    false
}

/// The mode that a word stands for.
pub open spec fn mode_named(word: Option<Seq<char>>) -> Option<Mode> {
    match word {
        Some(w) => {
            let l = lower(w);
            if l == "feeder"@ || l == "nodlss"@ || l == "no-dlss"@ {
                Some(Mode::Feeder)
            } else if l == "native"@ || l == "dlss"@ {
                Some(Mode::Native)
            } else {
                None
            }
        },
        None => None,
    }
}

/// The mode that overrides the detection, by the value of the environment
/// variable, if that is set.
pub fn mode_override(word: Option<&str>) -> (r: Option<Mode>)
    ensures
        r == mode_named(opt_text(word)),
{
    match word {
        Some(w) => {
            let low = lower_string(w);
            let l = low.as_str();
            if str_eq(l, "feeder") || str_eq(l, "nodlss") || str_eq(l, "no-dlss") {
                Some(Mode::Feeder)
            } else if str_eq(l, "native") || str_eq(l, "dlss") {
                Some(Mode::Native)
            } else {
                None
            }
        },
        None => None,
    }
}

/// The word that stands for a mode.
pub open spec fn mode_says(m: Mode) -> Seq<char> {
    match m {
        Mode::Feeder => "feeder"@,
        Mode::Native => "native"@,
    }
}

/// The value that the environment variable takes for an override; none where
/// the variable is removed.
pub fn mode_word(m: Option<Mode>) -> (r: Option<&'static str>)
    ensures
        opt_text(r) == (match m {
            Some(x) => Some(mode_says(x)),
            None => None,
        }),
{
    match m {
        Some(Mode::Feeder) => Some("feeder"),
        Some(Mode::Native) => Some("native"),
        None => None,
    }
}

/// What is set as the override is what is read as the override.
pub proof fn law_mode_override(m: Mode)
    ensures
        mode_named(Some(mode_says(m))) == Some(m),
{
    reveal_strlit("feeder");
    reveal_strlit("native");
    reveal_strlit("nodlss");
    reveal_strlit("no-dlss");
    reveal_strlit("dlss");
    assert(lower("feeder"@) =~= "feeder"@);
    assert(lower("native"@) =~= "native"@);
    assert("native"@[0] == 'n' && "feeder"@[0] == 'f' && "nodlss"@[1] == 'o' && "native"@[1] == 'a');
}

/// Everything that is known of a game's folder.
#[derive(Debug, Clone)]
pub struct GameStatus {
    pub mode: Mode,
    pub api: Api,
    pub bridge: bool,
    pub opti: bool,
    pub gpu: Option<(Gpu, Tier)>,
    /// The path of the executable.
    pub exe: String,
    pub bitness: u8,
    pub reshade: bool,
    pub headers: bool,
    pub feeder: bool,
    pub lumenite: bool,
    pub dlss5_addon: bool,
    pub dlssnr: bool,
    pub dlss: bool,
    /// What the folder scan said, before any override.
    pub mode_detected: Mode,
    /// 32-bit only: `host64\dlss5-feed-host64.exe` and a 64-bit ReShade beside it.
    pub host_exe: bool,
    pub host_reshade: bool,
    /// Capcom RE Engine (needs REFramework before ReShade will run).
    pub re_engine: bool,
    pub reframework: bool,
    /// The neural-upstream add-on is in the folder.
    pub upstream: bool,
    /// RenoDX game mod this tool installed, from its manifest.
    pub renodx_mod: Option<String>,
    /// Other RenoDX game mods found in the folder (not ours, not the DLSS 5
    /// add-on).
    pub foreign_renodx: Vec<String>,
    /// Anti-cheat found (files or exe name), whether or not the refusal is
    /// overridden.
    pub anticheat: Option<&'static str>,
    pub problems: Vec<String>,
}

/// Why the ReShade engine does not reach a Vulkan game.
pub const VULKAN_PROBLEM: &'static str =
    "This is a Vulkan game, so the ReShade engine cannot reach it: ReShade hooks Vulkan through a registered layer, not through the dxgi.dll installed beside the exe, and nothing here would ever load. Use the OptiScaler engine, which does cover Vulkan. To use ReShade anyway, run its own setup, point it at this exe and choose Vulkan, then follow DLSS5-Feeder's Vulkan instructions.";

impl GameStatus {
    /// The folder of the executable.
    pub open spec fn dir(&self) -> Seq<char> {
        match parent_of(self.exe@) {
            Some(d) => d,
            None => Seq::empty(),
        }
    }

    pub open spec fn bridged(&self) -> bool {
        self.mode == Mode::Native && self.api == Api::Dx11
    }

    /// All that the mode needs is there. Either neural consumer counts on the
    /// native path, and OptiScaler stands on its own.
    pub open spec fn is_complete(&self) -> bool {
        match self.mode {
            Mode::Feeder => {
                &&& self.reshade && self.headers && self.feeder && self.lumenite
                &&& self.dlss5_addon && self.dlssnr && self.dlss
                &&& self.bitness == 32 ==> self.host_exe && self.host_reshade
            },
            Mode::Native => {
                ||| self.opti && self.dlssnr
                ||| self.reshade && (self.dlss5_addon || self.upstream) && self.dlssnr && (
                self.bridged() ==> self.bridge)
            },
        }
    }

    pub fn game_dir(&self) -> (r: String)
        requires
            parent_of(self.exe@) is Some,
        ensures
            r@ == self.dir(),
    {
        match path_parent(self.exe.as_str()) {
            Some(d) => d,
            None => String::new(),
        }
    }

    /// What keeps the ReShade engine from the game.
    pub open spec fn engine_problem(&self) -> Option<Seq<char>> {
        if self.api == Api::Vulkan {
            Some(VULKAN_PROBLEM@)
        } else {
            None
        }
    }

    /// Why the ReShade engine cannot reach this game, when that is the case. A
    /// Vulkan game has no `dxgi.dll` to hook, but OptiScaler reaches it
    /// perfectly well, so this refuses one engine, not the game.
    pub fn reshade_engine_problem(&self) -> (r: Option<String>)
        ensures
            opt_string(r) == self.engine_problem(),
    {
        if self.api == Api::Vulkan {
            Some(VULKAN_PROBLEM.to_owned())
        } else {
            None
        }
    }

    pub fn is32(&self) -> (r: bool)
        ensures
            r == (self.bitness == 32),
    {
        self.bitness == 32
    }

    /// The folder of what a 64-bit process loads.
    pub open spec fn consumer_place(&self) -> Seq<char> {
        if self.bitness == 32 {
            joined(self.dir(), HOST_DIR@)
        } else {
            self.dir()
        }
    }

    /// Where the DLSS 5 add-on and the NVIDIA libraries live: beside the exe for
    /// a 64-bit game, in `host64\` for a 32-bit one.
    pub fn consumer_dir(&self) -> (r: String)
        requires
            parent_of(self.exe@) is Some,
        ensures
            r@ == self.consumer_place(),
    {
        let d = self.game_dir();
        if self.is32() {
            path_join(d.as_str(), HOST_DIR)
        } else {
            d
        }
    }

    pub fn needs_bridge(&self) -> (r: bool)
        ensures
            r == self.bridged(),
    {
        self.mode == Mode::Native && self.api == Api::Dx11
    }

    pub fn complete(&self) -> (r: bool)
        ensures
            r == self.is_complete(),
    {
        match self.mode {
            Mode::Feeder => {
                self.reshade && self.headers && self.feeder && self.lumenite && self.dlss5_addon
                    && self.dlssnr && self.dlss && (!self.is32() || (self.host_exe
                    && self.host_reshade))
            },
            Mode::Native => {
                (self.opti && self.dlssnr) || (self.reshade && (self.dlss5_addon || self.upstream)
                    && self.dlssnr && (!self.needs_bridge() || self.bridge))
            },
        }
    }
}

/// What was found where the game lies, and what the user has set.
#[derive(Debug)]
pub struct Found {
    /// The path of the executable, and whether there is a file.
    pub exe: String,
    pub is_file: bool,
    /// Its bytes, where they could be read.
    pub image: Option<Vec<u8>>,
    /// What is in its folder, and in the plugin folders.
    pub folder: Vec<Node>,
    pub plugins: Vec<Vec<Node>>,
    /// The bytes of the libraries that are scanned for the API.
    pub dlls: Vec<Vec<u8>>,
    /// The bytes of `dxgi.dll` here and in `host64\`, and of `d3d9.dll`.
    pub proxy: Option<Vec<u8>>,
    pub host_proxy: Option<Vec<u8>>,
    pub d3d9: Option<Vec<u8>>,
    /// What this tool recorded of the RenoDX mod that it placed, and whether the
    /// path that `renodx_path` gives for it is a file.
    pub renodx_manifest: Option<String>,
    pub renodx_there: bool,
    /// The best of the machine's adapters.
    pub gpu: Option<(Gpu, Tier)>,
    pub skip_gpu_check: bool,
    pub ignore_anticheat: bool,
    /// The value of the variable that overrides the mode.
    pub mode_word: Option<String>,
}

/// Where the mod lies that a record in the game's folder names.
pub fn renodx_path(game_dir: &str, manifest: &str) -> (r: Option<String>)
    ensures
        opt_string(r) == (if trim(manifest@).len() > 0 {
            Some(joined(game_dir@, trim(manifest@)))
        } else {
            None
        }),
{
    let n = trimmed(manifest);
    if n.as_str().is_empty() {
        None
    } else {
        Some(path_join(game_dir, n.as_str()))
    }
}

/// Why a game cannot be inspected.
#[derive(Debug, Clone, Copy, PartialEq, Eq, Structural)]
pub enum InspectError {
    NotFound,
    NoParent,
    CannotOpen,
    Exe(ExeError),
}

/// What is said of an executable that cannot be used.
pub open spec fn error_says(e: InspectError, exe: Seq<char>) -> Seq<char> {
    match e {
        InspectError::NotFound => "game executable not found: "@ + exe,
        InspectError::NoParent => "exe has no parent directory"@,
        InspectError::CannotOpen => "cannot open "@ + exe,
        InspectError::Exe(ExeError::NotWindows) => exe + " is not a Windows executable"@,
        InspectError::Exe(ExeError::NoHeader) => exe + " has no PE header"@,
        InspectError::Exe(ExeError::Machine(m)) => exe + ": unsupported machine type 0x"@ + hex(
            m as nat,
            4,
        ),
    }
}

impl InspectError {
    pub fn text(self, exe: &str) -> (r: String)
        ensures
            r@ == error_says(self, exe@),
    {
        match self {
            InspectError::NotFound => crate::strs::cat("game executable not found: ", exe),
            InspectError::NoParent => "exe has no parent directory".to_owned(),
            InspectError::CannotOpen => crate::strs::cat("cannot open ", exe),
            InspectError::Exe(ExeError::NotWindows) => crate::strs::cat(
                exe,
                " is not a Windows executable",
            ),
            InspectError::Exe(ExeError::NoHeader) => crate::strs::cat(exe, " has no PE header"),
            InspectError::Exe(ExeError::Machine(m)) => {
                let mut s = crate::strs::cat(exe, ": unsupported machine type 0x");
                s.append(hex_text(m as u64, 4).as_str());
                s
            },
        }
    }
}

pub const ANTICHEAT_PROBLEM: &'static str =
    " anti-cheat found in this game. ReShade add-on injection is what it detects: kick at best, ban at worst. Refused.";

pub const GPU_PROBLEM: &'static str =
    "): the DLSS 5 model runs on NVIDIA RTX only (it needs tensor cores and NGX). Misdetected? Set REVENGINE_DLSS5_SKIP_GPU_CHECK=1.";

pub const WRAPPER_PROBLEM: &'static str =
    "A d3d9.dll proxy is present that is not dgVoodoo2. DirectX 9 itself is not a dead              end -- DLSS 5 needs a D3D11/12 device, and dgVoodoo2 provides one, which is how a              D3D9 game can work here (#17, #37) -- but this tool cannot install behind another              wrapper. Replace it with dgVoodoo 2.87.3 (MS\\x86\\D3D9.dll plus dgVoodoo.conf,              OutputAPI = bestavailable) and run Install again.";

pub const DX9_PROBLEM: &'static str =
    "This is a DirectX 9 game. DLSS needs a Direct3D 11 or 12 device, which D3D9 never creates, so nothing here can attach to it as it stands -- and the game loads the system d3d9.dll by name, so the dxgi.dll this tool installs is never even asked for (no ReShade overlay, no ReShade.log). The route that works is dgVoodoo 2.87.3 first: it turns D3D9 into D3D11, and everything else follows from there. Put its D3D9.dll from the MS/x86 folder beside the exe with OutputAPI = bestavailable, confirm the game still starts, then run Install again.";

pub const DX12_32_PROBLEM: &'static str =
    "32-bit game on Direct3D 12: DLSS5-Feeder's 32-bit add-on covers Direct3D 9 (through dgVoodoo2), 10 and 11, but not 12.";

/// A problem, where there is one.
pub open spec fn when(b: bool, s: Seq<char>) -> Seq<Seq<char>> {
    if b {
        seq![s]
    } else {
        Seq::empty()
    }
}

impl Found {
    pub open spec fn dir(&self) -> Seq<char> {
        match parent_of(self.exe@) {
            Some(d) => d,
            None => Seq::empty(),
        }
    }

    pub open spec fn bytes(&self) -> Seq<u8> {
        match self.image {
            Some(b) => b@,
            None => Seq::empty(),
        }
    }

    /// What stands in the way of an inspection, if anything does.
    pub open spec fn error(&self) -> Option<InspectError> {
        if !self.is_file {
            Some(InspectError::NotFound)
        } else if parent_of(self.exe@) is None {
            Some(InspectError::NoParent)
        } else if self.image is None {
            Some(InspectError::CannotOpen)
        } else {
            match bitness(self.bytes()) {
                Err(e) => Some(InspectError::Exe(e)),
                Ok(_) => None,
            }
        }
    }

    pub open spec fn is_32(&self) -> bool {
        bitness(self.bytes()) == Ok::<u8, ExeError>(32)
    }

    pub open spec fn anticheat(&self) -> Option<Seq<char>> {
        match anticheat_in(self.folder@) {
            Some(a) => Some(a),
            None => known_anticheat(self.exe@),
        }
    }

    pub open spec fn dgvoodoo(&self) -> bool {
        dgvoodoo_in(self.folder@, self.d3d9)
    }

    /// The API; with dgVoodoo2 in place a D3D9 game is a D3D11 game at run time.
    pub open spec fn api(&self) -> Api {
        let a = found_api(
            self.bytes(),
            agility(self.dir(), self.folder@) is Some,
            byte_views(self.dlls@),
        );
        if a == Api::Dx9 && self.dgvoodoo() {
            Api::Dx11
        } else {
            a
        }
    }

    /// What the folder says of the mode: a 32-bit game can never carry its own
    /// DLSS.
    pub open spec fn mode_detected(&self) -> Mode {
        if !self.is_32() && dlss_in(self.folder@, self.plugins@) {
            Mode::Native
        } else {
            Mode::Feeder
        }
    }

    pub open spec fn mode(&self) -> Mode {
        if self.is_32() {
            Mode::Feeder
        } else {
            match mode_named(opt_string(self.mode_word)) {
                Some(m) => m,
                None => self.mode_detected(),
            }
        }
    }

    /// Why nothing is to be installed: in this order.
    pub open spec fn problems(&self) -> Seq<Seq<char>> {
        let ac = self.anticheat();
        (if ac is Some && !self.ignore_anticheat {
            seq![ac->0 + ANTICHEAT_PROBLEM@]
        } else {
            Seq::empty()
        }) + (match self.gpu {
            Some((g, t)) => when(
                !t.runs() && !self.skip_gpu_check,
                "GPU is "@ + g.name@ + " ("@ + t.says() + GPU_PROBLEM@,
            ),
            None => Seq::empty(),
        }) + when(
            has_file(self.folder@, "d3d9.dll"@) && !has_file(self.folder@, RESHADE_PROXY@)
                && !self.dgvoodoo(),
            WRAPPER_PROBLEM@,
        ) + when(self.api() == Api::Dx9, DX9_PROBLEM@) + when(
            self.is_32() && self.api() == Api::Dx12,
            DX12_32_PROBLEM@,
        )
    }

    /// What is in the folder of the DLSS 5 add-on.
    pub open spec fn consumer(&self) -> Seq<Node> {
        if self.is_32() {
            match folder(self.folder@, HOST_DIR@) {
                Some(v) => v,
                None => Seq::empty(),
            }
        } else {
            self.folder@
        }
    }

    /// What is in `reshade-shaders\Shaders` and `reshade-shaders\Textures`.
    pub open spec fn shader_folder(&self, name: Seq<char>) -> Seq<Node> {
        match folder(self.folder@, "reshade-shaders"@) {
            Some(v) => match folder(v, name) {
                Some(w) => w,
                None => Seq::empty(),
            },
            None => Seq::empty(),
        }
    }

    /// The mod that the manifest names, where its file is there.
    pub open spec fn renodx_mod(&self) -> Option<Seq<char>> {
        match self.renodx_manifest {
            Some(t) => if trim(t@).len() > 0 && self.renodx_there {
                Some(trim(t@))
            } else {
                None
            },
            None => None,
        }
    }

    /// The status that describes what was found.
    pub open spec fn described_by(&self, s: &GameStatus) -> bool {
        let shaders = self.shader_folder("Shaders"@);
        let textures = self.shader_folder("Textures"@);
        let opti = has_file(self.folder@, OPTI_MANIFEST@);
        &&& s.mode == self.mode()
        &&& s.api == self.api()
        &&& s.bridge == (has_file(self.folder@, BRIDGE_ADDON@) || has_file(
            self.folder@,
            BRIDGE_ADDON_OLD@,
        ))
        &&& s.opti == opti
        &&& s.upstream == has_file(self.folder@, UPSTREAM_ADDON@)
        &&& s.gpu == self.gpu
        &&& s.exe@ == self.exe@
        &&& bitness(self.bytes()) == Ok::<u8, ExeError>(s.bitness)
        &&& s.reshade == (!opti && is_reshade_file(self.proxy))
        &&& s.headers == (has_file(shaders, "ReShade.fxh"@) && has_file(shaders, "ReShadeUI.fxh"@)
            && has_file(shaders, "DrawText.fxh"@))
        &&& s.feeder == (has_file(
            self.folder@,
            if self.is_32() {
                FEEDER_ADDON32@
            } else {
                FEEDER_ADDON@
            },
        ) && has_file(shaders, FEEDER_FX@))
        &&& s.lumenite == (has_file(shaders, LUMENITE_KERNEL_FX@) && has_file(
            textures,
            LUMENITE_BLUENOISE@,
        ))
        &&& s.dlss5_addon == has_file(self.consumer(), DLSS5_ADDON@)
        &&& s.dlssnr == has_file(self.consumer(), DLSSNR_DLL@)
        &&& s.dlss == has_file(self.consumer(), DLSS_DLL@)
        &&& s.mode_detected == self.mode_detected()
        &&& s.host_exe == (self.is_32() && has_file(self.consumer(), HOST_EXE@))
        &&& s.host_reshade == (self.is_32() && is_reshade_file(self.host_proxy))
        &&& s.re_engine == has_file(self.folder@, RE_ENGINE_PAK@)
        &&& s.reframework == has_file(self.folder@, REFRAMEWORK_DLL@)
        &&& opt_string(s.renodx_mod) == self.renodx_mod()
        &&& texts(s.foreign_renodx@) == foreign_in(self.folder@, self.renodx_mod())
        &&& opt_text(s.anticheat) == self.anticheat()
        &&& texts(s.problems@) == self.problems()
    }
}

fn subfolder<'a>(nodes: &'a [Node], none: &'a [Node], name: &str) -> (r: &'a [Node])
    ensures
        r@ == (match folder(nodes@, name@) {
            Some(v) => v,
            None => none@,
        }),
{
    match find_folder(nodes, name) {
        Some(v) => v,
        None => none,
    }
}

fn find_problems(f: &Found, anticheat: Option<&'static str>, api: Api, is32: bool) -> (r: Vec<
    String,
>)
    requires
        opt_text(anticheat) == f.anticheat(),
        api == f.api(),
        is32 == f.is_32(),
    ensures
        texts(r@) == f.problems(),
{
    broadcast use texts_push;

    let mut out: Vec<String> = Vec::new();
    assert(texts(out@) =~= Seq::empty());
    if let Some(ac) = anticheat {
        if !f.ignore_anticheat {
            out.push(crate::strs::cat(ac, ANTICHEAT_PROBLEM));
        }
    }
    let ghost one = texts(out@);
    if let Some((g, t)) = &f.gpu {
        if !t.can_run() && !f.skip_gpu_check {
            let mut s = crate::strs::cat("GPU is ", g.name.as_str());
            s.append(" (");
            s.append(t.label());
            s.append(GPU_PROBLEM);
            out.push(s);
        }
    }
    let ghost two = texts(out@);
    if holds_file(f.folder.as_slice(), "d3d9.dll") && !holds_file(
        f.folder.as_slice(),
        RESHADE_PROXY,
    ) && !is_dgvoodoo(f.folder.as_slice(), &f.d3d9) {
        out.push(WRAPPER_PROBLEM.to_owned());
    }
    let ghost three = texts(out@);
    if api == Api::Dx9 {
        out.push(DX9_PROBLEM.to_owned());
    }
    let ghost four = texts(out@);
    if is32 && api == Api::Dx12 {
        out.push(DX12_32_PROBLEM.to_owned());
    }
    assert(texts(out@) =~= f.problems());
    out
}

fn read_api(f: &Found, image: &[u8], dir: &str) -> (r: Api)
    requires
        f.bytes() == image@,
        parent_of(f.exe@) == Some(dir@),
    ensures
        r == f.api(),
{
    let here = f.folder.as_slice();
    let sdk = has_agility_redist(dir, here).is_some();
    let api = detect_api(image, sdk, f.dlls.as_slice());
    if api == Api::Dx9 && is_dgvoodoo(here, &f.d3d9) {
        Api::Dx11
    } else {
        api
    }
}

fn read_anticheat(f: &Found) -> (r: Option<&'static str>)
    ensures
        opt_text(r) == f.anticheat(),
{
    match detect_anticheat(f.folder.as_slice()) {
        Some(a) => Some(a),
        None => known_anticheat_exe(f.exe.as_str()),
    }
}

fn read_renodx(f: &Found) -> (r: Option<String>)
    ensures
        opt_string(r) == f.renodx_mod(),
{
    match &f.renodx_manifest {
        Some(t) => {
            let n = trimmed(t.as_str());
            if !n.as_str().is_empty() && f.renodx_there {
                Some(n)
            } else {
                None
            }
        },
        None => None,
    }
}

/// The status of a game, from what was found where it lies.
#[verifier::rlimit(30)]
pub fn inspect(found: Found) -> (r: Result<GameStatus, InspectError>)
    ensures
        match r {
            Ok(s) => found.error() is None && found.described_by(&s),
            Err(e) => found.error() == Some(e),
        },
{
    let f = found;
    if !f.is_file {
        return Err(InspectError::NotFound);
    }
    let dir = match path_parent(f.exe.as_str()) {
        Some(d) => d,
        None => {
            return Err(InspectError::NoParent);
        },
    };
    let image = match &f.image {
        Some(b) => b.as_slice(),
        None => {
            return Err(InspectError::CannotOpen);
        },
    };
    let bits: u8 = match exe_bitness(image) {
        Ok(n) => n,
        Err(e) => {
            return Err(InspectError::Exe(e));
        },
    };
    let is32 = bits == 32;
    let here = f.folder.as_slice();
    let anticheat = read_anticheat(&f);
    let api = read_api(&f, image, dir.as_str());
    let problems = find_problems(&f, anticheat, api, is32);
    let nothing: Vec<Node> = Vec::new();
    let none = nothing.as_slice();
    assert(none@ =~= Seq::empty());
    let effects = subfolder(here, none, "reshade-shaders");
    assert(folder(none@, "Shaders"@) is None);
    assert(folder(none@, "Textures"@) is None);
    let shaders = subfolder(effects, none, "Shaders");
    let textures = subfolder(effects, none, "Textures");
    let consumer = if is32 {
        subfolder(here, none, HOST_DIR)
    } else {
        here
    };
    let mode_detected = if !is32 && game_ships_dlss(here, f.plugins.as_slice()) {
        Mode::Native
    } else {
        Mode::Feeder
    };
    let word = match &f.mode_word {
        Some(w) => mode_override(Some(w.as_str())),
        None => None,
    };
    let mode = if is32 {
        Mode::Feeder
    } else {
        match word {
            Some(m) => m,
            None => mode_detected,
        }
    };
    let renodx_mod = read_renodx(&f);
    let foreign_renodx = match &renodx_mod {
        Some(n) => foreign_mods(here, Some(n.as_str())),
        None => foreign_mods(here, None),
    };
    let opti = holds_file(here, OPTI_MANIFEST);
    let addon = if is32 {
        FEEDER_ADDON32
    } else {
        FEEDER_ADDON
    };
    let bridge = holds_file(here, BRIDGE_ADDON) || holds_file(here, BRIDGE_ADDON_OLD);
    let upstream = holds_file(here, UPSTREAM_ADDON);
    let reshade = !opti && is_reshade_dll(&f.proxy);
    let headers = holds_file(shaders, "ReShade.fxh") && holds_file(shaders, "ReShadeUI.fxh")
        && holds_file(shaders, "DrawText.fxh");
    let feeder = holds_file(here, addon) && holds_file(shaders, FEEDER_FX);
    let lumenite = holds_file(shaders, LUMENITE_KERNEL_FX) && holds_file(
        textures,
        LUMENITE_BLUENOISE,
    );
    let dlss5_addon = holds_file(consumer, DLSS5_ADDON);
    let dlssnr = holds_file(consumer, DLSSNR_DLL);
    let dlss = holds_file(consumer, DLSS_DLL);
    let host_exe = is32 && holds_file(consumer, HOST_EXE);
    let host_reshade = is32 && is_reshade_dll(&f.host_proxy);
    let re_engine = holds_file(here, RE_ENGINE_PAK);
    let reframework = holds_file(here, REFRAMEWORK_DLL);
    Ok(
        GameStatus {
            mode,
            api,
            bridge,
            opti,
            gpu: f.gpu,
            exe: f.exe,
            bitness: bits,
            reshade,
            headers,
            feeder,
            lumenite,
            dlss5_addon,
            dlssnr,
            dlss,
            mode_detected,
            host_exe,
            host_reshade,
            re_engine,
            reframework,
            upstream,
            renodx_mod,
            foreign_renodx,
            anticheat,
            problems,
        },
    )
}

/// One of the markers or manifests that this tool writes is there.
pub open spec fn has_marker(dir: Seq<Node>) -> bool {
    ||| has_file(dir, OPTI_MANIFEST@)
    ||| has_file(dir, RENODX_MANIFEST@)
    ||| has_file(dir, REFRAMEWORK_MARKER@)
    ||| has_file(dir, DLSS_MARKER@)
    ||| has_file(dir, DLSSNR_MARKER@)
    ||| has_file(dir, RESHADE_MARKER@)
    ||| has_file(dir, FEEDER_MARKER@)
}

/// Did this tool install into this folder? True when any marker or manifest it
/// writes is present. Used to group those games together and to decide whether
/// a component may be refreshed.
pub fn installed_by_tool(dir: &[Node]) -> (r: bool)
    ensures
        r == has_marker(dir@),
{
    holds_file(dir, OPTI_MANIFEST) || holds_file(dir, RENODX_MANIFEST) || holds_file(
        dir,
        REFRAMEWORK_MARKER,
    ) || holds_file(dir, DLSS_MARKER) || holds_file(dir, DLSSNR_MARKER) || holds_file(
        dir,
        RESHADE_MARKER,
    ) || holds_file(dir, FEEDER_MARKER)
}

} // verus!
