//! What the status of a game says, by what was found where it lies.
use vstd::prelude::*;

use crate::anticheat::{anticheat_in, known_anticheat};
use crate::api::{byte_views, found_api, Api};
use crate::bytes::{holds_text, holds_text_fold};
use crate::chars::lower;
use crate::game::{
    error_says, has_marker, mode_says, plugin_folders, ships_dlss, ANTICHEAT_PROBLEM,
    DX12_32_PROBLEM, DX9_PROBLEM, Found, GPU_PROBLEM, GameStatus, InspectError, Mode,
    WRAPPER_PROBLEM,
};
use crate::paths::{joined, name_of, parent_of};
use crate::pe::{bitness, ExeError};
use crate::strs::{ends, opt_string, opt_text, same_fold, starts, texts, trim};
use crate::tree::{folder, has_file, has_file_in, Node};
use crate::tree_laws::{folder_at, law_ships_dlss, shows_dlss};

verus! {

/// The word of the override, in lower case, is one of those that stand for the
/// Feeder.
pub open spec fn asks_for_feeder(f: &Found) -> bool {
    f.mode_word matches Some(w) && (lower(w@) == "feeder"@ || lower(w@) == "nodlss"@ || lower(w@)
        == "no-dlss"@)
}

/// The word of the override, in lower case, is one of those that stand for the
/// native path.
pub open spec fn asks_for_native(f: &Found) -> bool {
    f.mode_word matches Some(w) && (lower(w@) == "native"@ || lower(w@) == "dlss"@)
}

/// The override decides the mode of a 64-bit game, whatever its folder holds;
/// without a word that stands for a mode, what was detected is the mode.
pub proof fn law_override_decides(f: &Found, s: &GameStatus)
    requires
        f.described_by(s),
        s.bitness != 32,
    ensures
        asks_for_feeder(f) ==> s.mode == Mode::Feeder,
        asks_for_native(f) ==> s.mode == Mode::Native,
        !asks_for_feeder(f) && !asks_for_native(f) ==> s.mode == s.mode_detected,
{
    reveal_strlit("feeder");
    reveal_strlit("native");
    reveal_strlit("nodlss");
    reveal_strlit("no-dlss");
    reveal_strlit("dlss");
    assert("native"@[0] == 'n' && "feeder"@[0] == 'f');
    assert("nodlss"@[1] == 'o' && "native"@[1] == 'a');
    assert("dlss"@.len() == 4 && "feeder"@.len() == 6 && "no-dlss"@.len() == 7);
}

/// Whichever mode is set as the override, by the word that stands for it, is the
/// mode of a 64-bit game.
pub proof fn law_set_mode(f: &Found, s: &GameStatus, m: Mode)
    requires
        f.described_by(s),
        s.bitness != 32,
        opt_string(f.mode_word) == Some(mode_says(m)),
    ensures
        s.mode == m,
{
    crate::game::law_mode_override(m);
}

/// A 32-bit game is always on the Feeder's path, whatever its folder holds and
/// whatever the override says.
pub proof fn law_32_bit_mode(f: &Found, s: &GameStatus)
    requires
        f.described_by(s),
        s.bitness == 32,
    ensures
        s.mode == Mode::Feeder,
        s.mode_detected == Mode::Feeder,
{
}

/// What was detected does not depend on the override.
pub proof fn law_detection_apart(f: &Found, g: &Found, s: &GameStatus, t: &GameStatus)
    requires
        f.described_by(s),
        g.described_by(t),
        f.image == g.image,
        f.folder@ == g.folder@,
        f.plugins@ == g.plugins@,
    ensures
        s.mode_detected == t.mode_detected,
{
}

/// A 64-bit game is found to be native where a file that only a game with DLSS
/// ships lies in its folder, down to the fourth level, or in a plugin folder, down
/// to the seventh; and only there.
pub proof fn law_detected(f: &Found, s: &GameStatus)
    requires
        f.described_by(s),
        s.bitness != 32,
    ensures
        s.mode_detected == Mode::Native <==> {
            ||| exists|way: Seq<int>, i: int|
                way.len() <= 4 && (#[trigger] folder_at(f.folder@, way)) is Some
                    && #[trigger] shows_dlss(folder_at(f.folder@, way)->0, i)
            ||| exists|p: int|
                0 <= p < f.plugins@.len() && #[trigger] reaches_dlss(f.plugins@[p]@)
        },
{
    law_ships_dlss(f.folder@, 4);
    assert forall|p: int| 0 <= p < f.plugins@.len() implies ships_dlss(
        (#[trigger] f.plugins@[p])@,
        7,
    ) == reaches_dlss(f.plugins@[p]@) by {
        law_ships_dlss(f.plugins@[p]@, 7);
    }
    if exists|p: int| 0 <= p < f.plugins@.len() && #[trigger] reaches_dlss(f.plugins@[p]@) {
        let p = choose|p: int| 0 <= p < f.plugins@.len() && #[trigger] reaches_dlss(f.plugins@[p]@);
        assert(ships_dlss(f.plugins@[p]@, 7));
    }
    if exists|p: int| 0 <= p < f.plugins@.len() && ships_dlss((#[trigger] f.plugins@[p])@, 7) {
        let p = choose|p: int|
            0 <= p < f.plugins@.len() && ships_dlss((#[trigger] f.plugins@[p])@, 7);
        assert(reaches_dlss(f.plugins@[p]@));
    }
}

/// A plugin folder holds such a file, down to the seventh level.
pub open spec fn reaches_dlss(nodes: Seq<Node>) -> bool {
    exists|way: Seq<int>, i: int|
        way.len() <= 7 && (#[trigger] folder_at(nodes, way)) is Some && #[trigger] shows_dlss(
            folder_at(nodes, way)->0,
            i,
        )
}

/// A file `name` lies in `reshade-shaders`, in the subfolder `sub` of it.
pub open spec fn shader_lies(f: &Found, sub: Seq<char>, name: Seq<char>) -> bool {
    match folder(f.folder@, "reshade-shaders"@) {
        Some(v) => has_file_in(v, sub, name),
        None => false,
    }
}

/// A file that a 64-bit process loads: beside the exe of a 64-bit game, in the
/// folder of the helper for a 32-bit one.
pub open spec fn consumer_lies(f: &Found, s: &GameStatus, name: Seq<char>) -> bool {
    if s.bitness == 32 {
        has_file_in(f.folder@, "host64"@, name)
    } else {
        has_file(f.folder@, name)
    }
}

/// Each piece counts as installed where its files are, and only there.
#[verifier::rlimit(40)]
pub proof fn law_pieces(f: &Found, s: &GameStatus)
    requires
        f.described_by(s),
    ensures
        s.exe@ == f.exe@,
        s.gpu == f.gpu,
        s.bridge <==> has_file(f.folder@, "dlss5-bridge.addon64"@) || has_file(
            f.folder@,
            "dlss5-dx11-bridge.addon64"@,
        ),
        s.opti <==> has_file(f.folder@, ".revengine-dlss5-optiscaler-manifest"@),
        s.upstream <==> has_file(f.folder@, "nvngx.dll.addon64"@),
        s.re_engine <==> has_file(f.folder@, "re_chunk_000.pak"@),
        s.reframework <==> has_file(f.folder@, "dinput8.dll"@),
        s.headers <==> shader_lies(f, "Shaders"@, "ReShade.fxh"@) && shader_lies(
            f,
            "Shaders"@,
            "ReShadeUI.fxh"@,
        ) && shader_lies(f, "Shaders"@, "DrawText.fxh"@),
        s.lumenite <==> shader_lies(f, "Shaders"@, "lumenite_Kernel.fx"@) && shader_lies(
            f,
            "Textures"@,
            "lumenite_bluenoise256.png"@,
        ),
        s.bitness != 32 ==> (s.feeder <==> has_file(f.folder@, "dlss5-feed.addon64"@)
            && shader_lies(f, "Shaders"@, "DLSS5_Feed.fx"@)),
        s.bitness == 32 ==> (s.feeder <==> has_file(f.folder@, "dlss5-feed.addon32"@)
            && shader_lies(f, "Shaders"@, "DLSS5_Feed.fx"@)),
        s.dlss5_addon <==> consumer_lies(f, s, "renodx-dlss5.addon64"@),
        s.dlssnr <==> consumer_lies(f, s, "nvngx_dlssnr.dll"@),
        s.dlss <==> consumer_lies(f, s, "nvngx_dlss.dll"@),
        s.host_exe <==> s.bitness == 32 && consumer_lies(f, s, "dlss5-feed-host64.exe"@),
{
    assert(!has_file(Seq::<Node>::empty(), "ReShade.fxh"@));
}

/// ReShade counts where its proxy is a ReShade build of one megabyte at least and
/// OptiScaler, which takes the same name, was not installed; the helper's own
/// counts for a 32-bit game only.
pub proof fn law_reshade(f: &Found, s: &GameStatus)
    requires
        f.described_by(s),
    ensures
        s.reshade <==> !s.opti && f.proxy is Some && f.proxy->0@.len() >= 1048576 && holds_text(
            f.proxy->0@,
            "ReShade"@,
        ) && (holds_text(f.proxy->0@, "crosire"@) || !holds_text(f.proxy->0@, "OptiScaler"@)),
        s.host_reshade <==> s.bitness == 32 && f.host_proxy is Some && f.host_proxy->0@.len()
            >= 1048576 && holds_text(f.host_proxy->0@, "ReShade"@) && (holds_text(
            f.host_proxy->0@,
            "crosire"@,
        ) || !holds_text(f.host_proxy->0@, "OptiScaler"@)),
{
}

/// dgVoodoo2 lies beside the exe: its settings, its control panel, or its name in
/// the wrapper library, case aside.
pub open spec fn wraps_d3d9(f: &Found) -> bool {
    ||| has_file(f.folder@, "dgVoodoo.conf"@)
    ||| has_file(f.folder@, "dgVoodooCpl.exe"@)
    ||| f.d3d9 matches Some(b) && holds_text_fold(b@, "dgVoodoo"@)
}

/// Behind dgVoodoo2 a Direct3D 9 game is a Direct3D 11 game; nothing else about
/// the API depends on dgVoodoo2.
pub proof fn law_dgvoodoo(f: &Found, s: &GameStatus)
    requires
        f.described_by(s),
    ensures
        ({
            let a = found_api(
                f.image->0@,
                has_file_in(f.folder@, "D3D12"@, "D3D12Core.dll"@) || has_file(
                    f.folder@,
                    "D3D12Core.dll"@,
                ),
                byte_views(f.dlls@),
            );
            &&& f.image is Some && a == Api::Dx9 && wraps_d3d9(f) ==> s.api == Api::Dx11
            &&& f.image is Some && (a != Api::Dx9 || !wraps_d3d9(f)) ==> s.api == a
            &&& wraps_d3d9(f) ==> s.api != Api::Dx9
        }),
{
}

/// An anti-cheat system in the folder counts before one that the name of the exe
/// gives away, and is reported whether or not it is to be ignored.
pub proof fn law_anticheat(f: &Found, s: &GameStatus)
    requires
        f.described_by(s),
    ensures
        anticheat_in(f.folder@) is Some ==> opt_text(s.anticheat) == anticheat_in(f.folder@),
        anticheat_in(f.folder@) is None ==> opt_text(s.anticheat) == known_anticheat(f.exe@),
{
}

/// Nothing stands in the way of an install exactly where there is no anti-cheat
/// system or it is to be ignored, the card can run the model or is not to be
/// checked, no foreign wrapper of Direct3D 9 lies in the folder, and the game
/// renders with an API that can be reached.
#[verifier::rlimit(40)]
pub proof fn law_no_problem(f: &Found, s: &GameStatus)
    requires
        f.described_by(s),
    ensures
        s.problems@.len() == 0 <==> {
            &&& s.anticheat is None || f.ignore_anticheat
            &&& f.gpu is None || (f.gpu->0).1.runs() || f.skip_gpu_check
            &&& !has_file(f.folder@, "d3d9.dll"@) || has_file(f.folder@, "dxgi.dll"@) || wraps_d3d9(
                f,
            )
            &&& s.api != Api::Dx9
            &&& !(s.bitness == 32 && s.api == Api::Dx12)
        },
{
    assert(texts(s.problems@).len() == s.problems@.len());
    let p = f.problems();
    assert(opt_text(s.anticheat) is Some <==> s.anticheat is Some);
}

/// Each problem is told where it is there, by its own text.
#[verifier::rlimit(40)]
pub proof fn law_problems_told(f: &Found, s: &GameStatus)
    requires
        f.described_by(s),
    ensures
        s.anticheat is Some && !f.ignore_anticheat ==> texts(s.problems@).contains(
            s.anticheat->0@ + ANTICHEAT_PROBLEM@,
        ),
        f.gpu is Some && !(f.gpu->0).1.runs() && !f.skip_gpu_check ==> texts(s.problems@).contains(
            "GPU is "@ + (f.gpu->0).0.name@ + " ("@ + (f.gpu->0).1.says() + GPU_PROBLEM@,
        ),
        has_file(f.folder@, "d3d9.dll"@) && !has_file(f.folder@, "dxgi.dll"@) && !wraps_d3d9(f)
            ==> texts(s.problems@).contains(WRAPPER_PROBLEM@),
        s.api == Api::Dx9 ==> texts(s.problems@).contains(DX9_PROBLEM@),
        s.bitness == 32 && s.api == Api::Dx12 ==> texts(s.problems@).contains(DX12_32_PROBLEM@),
{
    let p = texts(s.problems@);
    let ac = f.anticheat();
    let a: Seq<Seq<char>> = if ac is Some && !f.ignore_anticheat {
        seq![ac->0 + ANTICHEAT_PROBLEM@]
    } else {
        Seq::empty()
    };
    let g: Seq<Seq<char>> = match f.gpu {
        Some((g, t)) => crate::game::when(
            !t.runs() && !f.skip_gpu_check,
            "GPU is "@ + g.name@ + " ("@ + t.says() + GPU_PROBLEM@,
        ),
        None => Seq::empty(),
    };
    let w = crate::game::when(
        has_file(f.folder@, "d3d9.dll"@) && !has_file(f.folder@, "dxgi.dll"@) && !f.dgvoodoo(),
        WRAPPER_PROBLEM@,
    );
    let n = crate::game::when(f.api() == Api::Dx9, DX9_PROBLEM@);
    let t = crate::game::when(f.is_32() && f.api() == Api::Dx12, DX12_32_PROBLEM@);
    assert(p == a + g + w + n + t);
    if a.len() > 0 {
        assert(p[0] == a[0]);
    }
    if g.len() > 0 {
        assert(p[a.len() as int] == g[0]);
    }
    if w.len() > 0 {
        assert(p[(a.len() + g.len()) as int] == w[0]);
    }
    if n.len() > 0 {
        assert(p[(a.len() + g.len() + w.len()) as int] == n[0]);
    }
    if t.len() > 0 {
        assert(p[(a.len() + g.len() + w.len() + n.len()) as int] == t[0]);
    }
}

/// The Feeder's path is complete where all of its seven pieces are there, and for
/// a 32-bit game the helper and its ReShade as well.
pub proof fn law_feeder_complete(s: &GameStatus)
    requires
        s.mode == Mode::Feeder,
    ensures
        s.is_complete() ==> s.reshade && s.headers && s.feeder && s.lumenite && s.dlss5_addon
            && s.dlssnr && s.dlss,
        s.is_complete() && s.bitness == 32 ==> s.host_exe && s.host_reshade,
        s.reshade && s.headers && s.feeder && s.lumenite && s.dlss5_addon && s.dlssnr && s.dlss && (
        s.bitness != 32 || (s.host_exe && s.host_reshade)) ==> s.is_complete(),
{
}

/// The native path is never complete without the model. OptiScaler needs nothing
/// more; ReShade needs one of the two add-ons, and on Direct3D 11 the bridge. The
/// Feeder's pieces do not count.
pub proof fn law_native_complete(s: &GameStatus)
    requires
        s.mode == Mode::Native,
    ensures
        s.is_complete() ==> s.dlssnr,
        s.opti && s.dlssnr ==> s.is_complete(),
        !s.opti && s.is_complete() ==> s.reshade && (s.dlss5_addon || s.upstream),
        !s.opti && s.is_complete() && s.api == Api::Dx11 ==> s.bridge,
        s.reshade && s.dlssnr && s.dlss5_addon && (s.bridge || s.api != Api::Dx11)
            ==> s.is_complete(),
        s.reshade && s.dlssnr && s.upstream && (s.bridge || s.api != Api::Dx11) ==> s.is_complete(),
{
}

/// The bridge is needed for native games on Direct3D 11, and for no others.
pub proof fn law_bridged(s: &GameStatus)
    ensures
        s.bridged() <==> s.mode == Mode::Native && s.api == Api::Dx11,
{
}

/// A game is inspected where its exe is a file in a folder, can be read and is a
/// Windows program; the first of these that fails is the error.
pub proof fn law_inspect_errors(f: &Found)
    ensures
        f.error() is None <==> f.is_file && parent_of(f.exe@) is Some && f.image is Some && bitness(
            f.image->0@,
        ) is Ok,
        !f.is_file ==> f.error() == Some(InspectError::NotFound),
        f.is_file && parent_of(f.exe@) is None ==> f.error() == Some(InspectError::NoParent),
        f.is_file && parent_of(f.exe@) is Some && f.image is None ==> f.error() == Some(
            InspectError::CannotOpen,
        ),
        f.is_file && parent_of(f.exe@) is Some && f.image is Some && bitness(f.image->0@) is Err
            ==> f.error() == Some(InspectError::Exe(bitness(f.image->0@)->Err_0)),
{
}

/// The recorded mod counts where the record names one whose file is there; white
/// space around the name is no part of it.
pub proof fn law_recorded_mod(f: &Found, s: &GameStatus)
    requires
        f.described_by(s),
    ensures
        s.renodx_mod is Some <==> f.renodx_there && f.renodx_manifest is Some && trim(
            f.renodx_manifest->0@,
        ).len() > 0,
        s.renodx_mod is Some ==> s.renodx_mod->0@ == trim(f.renodx_manifest->0@),
{
}

/// Any of the seven marks shows that this tool was here, and nothing else does.
pub proof fn law_marks(dir: Seq<Node>)
    ensures
        has_marker(dir) <==> has_file(dir, ".revengine-dlss5-optiscaler-manifest"@) || has_file(
            dir,
            ".revengine-dlss5-renodx"@,
        ) || has_file(dir, ".revengine-dlss5-reframework"@) || has_file(
            dir,
            "nvngx_dlss.dll.revengine-dlss5"@,
        ) || has_file(dir, "nvngx_dlssnr.dll.revengine-dlss5"@) || has_file(
            dir,
            "dxgi.dll.revengine-dlss5"@,
        ) || has_file(dir, "dlss5-feed.revengine-dlss5"@),
{
}

/// The plugins of an Unreal project lie beside the folder `Binaries` that the
/// exe's folder is in, and those of the engine in `Engine` beside the project.
pub proof fn law_plugin_folders(
    dir: Seq<char>,
    binaries: Seq<char>,
    name: Seq<char>,
    project: Seq<char>,
)
    requires
        parent_of(dir) == Some(binaries),
        name_of(binaries) == Some(name),
        parent_of(binaries) == Some(project),
    ensures
        same_fold(name, "binaries"@) ==> plugin_folders(dir).len() >= 1 && plugin_folders(dir)[0]
            == joined(project, "Plugins"@),
        same_fold(name, "binaries"@) && parent_of(project) is Some ==> plugin_folders(dir).len()
            == 2 && plugin_folders(dir)[1] == joined(
            joined(parent_of(project)->0, "Engine"@),
            "Plugins"@,
        ),
        !same_fold(name, "binaries"@) ==> plugin_folders(dir).len() == 0,
{
}

/// What a 64-bit process loads lies beside the exe of a 64-bit game, and in
/// `host64` beside that of a 32-bit one.
pub proof fn law_consumer_place(s: &GameStatus, dir: Seq<char>)
    requires
        parent_of(s.exe@) == Some(dir),
    ensures
        s.dir() == dir,
        s.bitness != 32 ==> s.consumer_place() == dir,
        s.bitness == 32 ==> s.consumer_place() == joined(dir, "host64"@),
{
}

/// Vulkan keeps ReShade from a game, and nothing else does.
pub proof fn law_engine_problem(s: &GameStatus)
    ensures
        s.engine_problem() is Some <==> s.api == Api::Vulkan,
{
}

/// What is said of an executable that cannot be used names it, but where it has no
/// folder.
pub proof fn law_error_text(e: InspectError, exe: Seq<char>)
    ensures
        e == InspectError::NotFound ==> error_says(e, exe) == "game executable not found: "@ + exe,
        e == InspectError::CannotOpen ==> error_says(e, exe) == "cannot open "@ + exe,
        e is Exe ==> starts(error_says(e, exe), exe),
        e == InspectError::Exe(ExeError::NotWindows) ==> ends(
            error_says(e, exe),
            " is not a Windows executable"@,
        ),
        e == InspectError::Exe(ExeError::NoHeader) ==> ends(
            error_says(e, exe),
            " has no PE header"@,
        ),
{
    let t = error_says(e, exe);
    if e is Exe {
        assert(t.subrange(0, exe.len() as int) =~= exe);
    }
    if e == InspectError::Exe(ExeError::NotWindows) {
        let s = " is not a Windows executable"@;
        assert(t.subrange(exe.len() as int, t.len() as int) =~= s);
    }
    if e == InspectError::Exe(ExeError::NoHeader) {
        let s = " has no PE header"@;
        assert(t.subrange(exe.len() as int, t.len() as int) =~= s);
    }
}

} // verus!
