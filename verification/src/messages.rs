//! What the diagnosis says.
use vstd::prelude::*;

verus! {

/// More than one GPU vendor: before the adapters, after them, and after what is
/// said of the preference.
pub const HYBRID_1: &'static str =
    "More than one GPU vendor on this machine (";

pub const HYBRID_2: &'static str =
    "), and Windows decides which one              a process starts on. Started on the integrated GPU, NGX does not exist and              every Init answers 0xBAD00001 — this is the most likely cause here";

pub const HYBRID_3: &'static str =
    ".              Settings ▸ System ▸ Display ▸ Graphics ▸ Add a desktop app ▸ pick the game's exe              (and, for a 32-bit game, host64\\dlss5-feed-host64.exe) ▸ Options ▸ High performance.              Install sets that for you from this version on.";

pub const HYBRID_SET: &'static str =
    ", though the preference is already set to high performance for that exe";

/// What to do where the NGX runtime is as it should be, and where it is not.
pub const NGX_FINE: &'static str =
    "Your NGX runtime and driver are fine, so this is NGX refusing the Feeder's private          D3D12 device inside the game process, which has been reported on several machines.          Worth doing: install into a game that ships its own DLSS (that path opens no private          device) to confirm NGX works for you, then report this log at          github.com/jlrouzies-fr/DLSS5-Feeder, where that device is created.";

pub const NGX_BROKEN: &'static str =
    "Fix that first, then run Install again: reinstall the NVIDIA driver with a Custom          install that keeps every component (616.56 or newer).";

/// NGX refused: before the line of the log, after it, and after the state of the
/// system.
pub const NGX_1: &'static str =
    "NGX refused to initialise: ";

pub const NGX_2: &'static str =
    ". 0xBAD00001 is FeatureNotSupported, which NGX also          answers when its runtime is not on the system — not a ReShade, shader or add-on          problem. ";

pub const NGX_3: &'static str =
    ". ";

/// Newest Feeder known at build time; only used to nudge users off stale copies.
pub const CURRENT_FEEDER: &'static str =
    "0.14.0";

/// A game's own HLSL compiler: before and after its version.
pub const COMPILER_1: &'static str =
    "The game ships its own d3dcompiler_47.dll (";

pub const COMPILER_2: &'static str =
    "), which Windows loads instead of System32's. If it predates shader model 5.1 the DLSS 5 pass cannot compile (error X3506). Rename it to d3dcompiler_47.dll.bak and start the game again; almost every game runs fine on the system copy.";

pub const NO_LOG: &'static str =
    "No ReShade.log next to the game exe: ReShade never loaded. Either the game was not started since the install, or it does not load dxgi.dll (wrong exe picked, or a launcher starts a different one). Check the exe with --check.";

pub const LOADED: &'static str =
    "ReShade loaded into the game.";

/// What an error code of the add-on means.
pub const REFUSES_UNSIGNED: &'static str =
    " (0x80090006 = the process refuses unsigned DLLs; nothing can be done)";

pub const ENTRY_FAILED: &'static str =
    " (the add-on's DLL entry point failed; usually a CPU without AVX2 or a mismatched ReShade version)";

pub const REFUSED: &'static str =
    "ReShade refused to load renodx-dlss5.addon64, error code ";

pub const REGISTERED: &'static str =
    "The DLSS 5 Neural Rendering add-on registered.";

pub const NOT_REGISTERED: &'static str =
    "The DLSS 5 add-on never registered. renodx-dlss5.addon64 is missing from the game folder, disabled in ReShade's Add-ons tab, or quarantined by antivirus.";

pub const TOGGLED_ON: &'static str =
    "Neural rendering was toggled ON (F6).";

pub const TOGGLED_OFF: &'static str =
    "The log's last F6 state may be OFF — press F6 in game and watch the add-on's panel.";

pub const RAN: &'static str =
    "Neural rendering ran: the add-on evaluated the DLSS 5 model on real frames. If the picture still looks unchanged, raise NR Intensity / Local Structure in its panel — the default is subtle.";

pub const SAW_DLSS: &'static str =
    "The add-on saw the game's DLSS but has not evaluated the model yet (feature 18 never created). Enable DLSS in the game's own graphics settings and enable neural rendering in the add-on panel.";

pub const NEEDS_BRIDGE: &'static str =
    "No NGX call was intercepted, and this is a Direct3D 11 game with its own DLSS: the add-on hooks the D3D12 NGX entry points, but the game calls the D3D11 ones, so it can never see them. The DX11 bridge covers exactly this and is not installed here — run Install on this exe.";

pub const DLSS_OFF: &'static str =
    "No NGX call was intercepted: this game's own DLSS never ran. Turn DLSS on in the game's graphics settings (the add-on hooks the game's DLSS calls; without them it has nothing to work with).";

/// After the line of the log.
pub const OLD_COMPILER: &'static str =
    " — the HLSL compiler in this process is too old for the DLSS 5 pass. That is a d3dcompiler_47.dll shipped with the game, loaded in preference to System32's. Rename it (d3dcompiler_47.dll.bak) and start the game again.";

/// ReShade was loaded into another executable: around its name, and around that of
/// the one that was picked.
pub const OTHER_EXE_1: &'static str =
    "ReShade loaded into ";

pub const OTHER_EXE_2: &'static str =
    ", but this install was set up for ";

pub const OTHER_EXE_3: &'static str =
    ". Those are different executables, and the install is tuned to the one you picked (the DX11 bridge in particular). Point the tool at ";

pub const OTHER_EXE_4: &'static str =
    " and run Install again.";

pub const BRIDGE_STOPPED: &'static str =
    "The DX11 bridge stopped: ";

/// The Agility SDK in force: around its path and its version.
pub const REDIST_1: &'static str =
    "The copy in force here is ";

pub const REDIST_2: &'static str =
    " (";

pub const REDIST_3: &'static str =
    "). Rename it and start the game again: it falls back to the Windows runtime, which every device in the process can match. If the game will not start without it, verify the game files instead -- a D3D12Core.dll replaced or truncated by another tool gives exactly this error.";

pub const NO_REDIST: &'static str =
    "No D3D12Core.dll is next to the exe or in a D3D12 folder here, so the declaration points somewhere else or the file is missing outright. Verify the game files.";

/// After the line of the log, before what is known of the SDK.
pub const INVALID_REDIST: &'static str =
    " — 0x887E0003 is D3D12_ERROR_INVALID_REDIST: the executable declares its own DirectX 12 Agility SDK (D3D12SDKVersion/D3D12SDKPath exports), and until that declaration is satisfied no D3D12 device can be created in this process at all -- not the bridge's, not the game's. Not something this tool sets. ";

pub const BRIDGE_RUNS: &'static str =
    "The DX11 bridge opened its D3D12 session and is delivering frames.";

pub const NO_FEED: &'static str =
    "No dlss5-feed.log: DLSS5-Feeder never started. Its add-on is missing or disabled in ReShade's Add-ons tab.";

pub const FEED_READY: &'static str =
    "DLSS5-Feeder built its DLSS feature (feature ready … DLAA).";

pub const DELIVERED: &'static str =
    "Frames were delivered to the model.";

pub const NOT_COMPILING: &'static str =
    "DLSS5_Feed.fx is not compiling. Its shader files are missing from reshade-shaders\\Shaders — re-run Install.";

pub const NO_PROVIDER: &'static str =
    "The motion-vector provider is not enabled. In ReShade's Home tab enable \"LUMENITE: Kernel 2.0\" ABOVE \"DLSS5_Feed\", then reload effects.";

pub const HOST_READY: &'static str =
    "The host64 helper built its DLSS feature (feature ready … DLAA).";

pub const NO_HOST_LOG: &'static str =
    "No host64\\dlss5-feed-host.log yet: the 64-bit helper has not started. It is spawned by the first fed frame, so enable Lumenite_Kernel + DLSS5_Feed in ReShade's Home tab and play a moment first.";

/// A Feeder that is not the newest: around its version and the newest one.
pub const OLD_FEEDER_1: &'static str =
    "DLSS5-Feeder ";

pub const OLD_FEEDER_2: &'static str =
    " in the log is older than ";

pub const OLD_FEEDER_3: &'static str =
    "; re-run Install to refresh it (since 0.9.1 an existing Feeder is updated).";

pub const ZERO_VECTORS: &'static str =
    "Motion vectors are all zero: the provider is enabled but writes nothing. Check that Lumenite_Kernel sits above DLSS5_Feed in the technique list.";

pub const NO_DLSS: &'static str =
    "NGX reported DLSS unavailable. nvngx_dlss.dll must sit next to the game exe — re-run Install, and make sure antivirus did not remove it.";

pub const FEED_STOPPED: &'static str =
    "The feed stopped itself: ";

pub const CRASHED: &'static str =
    "The feed recorded a crash inside the DLSS 5 add-on (upstream issue #16). Play in borderless/windowed rather than exclusive fullscreen, and raise create_delay in dlss5-feed.cfg.";

} // verus!
