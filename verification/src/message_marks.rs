//! Where the texts of the diagnosis differ from one another.
use vstd::prelude::*;

use crate::messages::{
    BRIDGE_RUNS, BRIDGE_STOPPED, COMPILER_1, CRASHED, DELIVERED, DLSS_OFF, FEED_READY, FEED_STOPPED,
    HOST_READY, HYBRID_1, LOADED, NEEDS_BRIDGE, NGX_1, NOT_COMPILING, NOT_REGISTERED, NO_DLSS,
    NO_FEED, NO_HOST_LOG, NO_LOG, NO_PROVIDER, NO_REDIST, OLD_COMPILER, OLD_FEEDER_1, OTHER_EXE_1,
    RAN, REDIST_3, REFUSED, REGISTERED, SAW_DLSS, TOGGLED_OFF, TOGGLED_ON, ZERO_VECTORS,
};
use crate::strs::{ends, starts};

verus! {

/// Some of the first characters of a text.
pub open spec fn heads(s: Seq<char>) -> (char, char, char, char, char, char) {
    (s[0], s[2], s[4], s[5], s[6], s[8])
}

/// Some of the last characters of a text.
pub open spec fn tails(s: Seq<char>) -> (char, char) {
    (s[s.len() - 3], s[s.len() - 2])
}

pub proof fn same_heads(s: Seq<char>, t: Seq<char>)
    requires
        starts(s, t),
        t.len() > 8,
    ensures
        heads(s) == heads(t),
{
    assert forall|i: int| 0 <= i < t.len() implies s[i] == t[i] by {
        assert(s.subrange(0, t.len() as int)[i] == s[i]);
    }
}

pub proof fn same_tails(s: Seq<char>, t: Seq<char>)
    requires
        ends(s, t),
        t.len() > 2,
    ensures
        tails(s) == tails(t),
{
    let k = s.len() - t.len();
    assert forall|i: int| 0 <= i < t.len() implies s[k + i] == t[i] by {
        assert(s.subrange(k, k + t.len())[i] == s[k + i]);
    }
    assert(s[k + (t.len() - 3)] == t[t.len() - 3]);
    assert(s[k + (t.len() - 2)] == t[t.len() - 2]);
}

proof fn mark_no_log()
    ensures
        NO_LOG@.len() == 224,
        heads(NO_LOG@) == ('N', ' ', 'e', 'S', 'h', 'd'),
        tails(NO_LOG@) == ('c', 'k'),
{
    reveal_strlit(
        "No ReShade.log next to the game exe: ReShade never loaded. Either the game was not started since the install, or it does not load dxgi.dll (wrong exe picked, or a launcher starts a different one). Check the exe with --check.",
    );
}

proof fn mark_refused()
    ensures
        REFUSED@.len() == 57,
        heads(REFUSED@) == ('R', 'S', 'a', 'd', 'e', 'r'),
        tails(REFUSED@) == ('d', 'e'),
{
    reveal_strlit(
        "ReShade refused to load renodx-dlss5.addon64, error code ",
    );
}

proof fn mark_not_registered()
    ensures
        NOT_REGISTERED@.len() == 153,
        heads(NOT_REGISTERED@) == ('T', 'e', 'D', 'L', 'S', ' '),
        tails(NOT_REGISTERED@) == ('u', 's'),
{
    reveal_strlit(
        "The DLSS 5 add-on never registered. renodx-dlss5.addon64 is missing from the game folder, disabled in ReShade's Add-ons tab, or quarantined by antivirus.",
    );
}

proof fn mark_needs_bridge()
    ensures
        NEEDS_BRIDGE@.len() == 273,
        heads(NEEDS_BRIDGE@) == ('N', ' ', 'G', 'X', ' ', 'a'),
        tails(NEEDS_BRIDGE@) == ('x', 'e'),
{
    reveal_strlit(
        "No NGX call was intercepted, and this is a Direct3D 11 game with its own DLSS: the add-on hooks the D3D12 NGX entry points, but the game calls the D3D11 ones, so it can never see them. The DX11 bridge covers exactly this and is not installed here — run Install on this exe.",
    );
}

proof fn mark_dlss_off()
    ensures
        DLSS_OFF@.len() == 189,
        heads(DLSS_OFF@) == ('N', ' ', 'G', 'X', ' ', 'a'),
        tails(DLSS_OFF@) == ('h', ')'),
{
    reveal_strlit(
        "No NGX call was intercepted: this game's own DLSS never ran. Turn DLSS on in the game's graphics settings (the add-on hooks the game's DLSS calls; without them it has nothing to work with).",
    );
}

proof fn mark_bridge_stopped()
    ensures
        BRIDGE_STOPPED@.len() == 25,
        heads(BRIDGE_STOPPED@) == ('T', 'e', 'D', 'X', '1', ' '),
        tails(BRIDGE_STOPPED@) == ('d', ':'),
{
    reveal_strlit(
        "The DX11 bridge stopped: ",
    );
}

proof fn mark_no_feed()
    ensures
        NO_FEED@.len() == 106,
        heads(NO_FEED@) == ('N', ' ', 'l', 's', 's', '-'),
        tails(NO_FEED@) == ('a', 'b'),
{
    reveal_strlit(
        "No dlss5-feed.log: DLSS5-Feeder never started. Its add-on is missing or disabled in ReShade's Add-ons tab.",
    );
}

proof fn mark_not_compiling()
    ensures
        NOT_COMPILING@.len() == 107,
        heads(NOT_COMPILING@) == ('D', 'S', '5', '_', 'F', 'e'),
        tails(NOT_COMPILING@) == ('l', 'l'),
{
    reveal_strlit(
        "DLSS5_Feed.fx is not compiling. Its shader files are missing from reshade-shaders\\Shaders — re-run Install.",
    );
}

proof fn mark_no_provider()
    ensures
        NO_PROVIDER@.len() == 135,
        heads(NO_PROVIDER@) == ('T', 'e', 'm', 'o', 't', 'o'),
        tails(NO_PROVIDER@) == ('t', 's'),
{
    reveal_strlit(
        "The motion-vector provider is not enabled. In ReShade's Home tab enable \"LUMENITE: Kernel 2.0\" ABOVE \"DLSS5_Feed\", then reload effects.",
    );
}

proof fn mark_hybrid_1()
    ensures
        HYBRID_1@.len() == 42,
        heads(HYBRID_1@) == ('M', 'r', ' ', 't', 'h', 'n'),
        tails(HYBRID_1@) == ('e', ' '),
{
    reveal_strlit(
        "More than one GPU vendor on this machine (",
    );
}

proof fn mark_ngx_1()
    ensures
        NGX_1@.len() == 27,
        heads(NGX_1@) == ('N', 'X', 'r', 'e', 'f', 's'),
        tails(NGX_1@) == ('e', ':'),
{
    reveal_strlit(
        "NGX refused to initialise: ",
    );
}

proof fn mark_zero_vectors()
    ensures
        ZERO_VECTORS@.len() == 144,
        heads(ZERO_VECTORS@) == ('M', 't', 'o', 'n', ' ', 'e'),
        tails(ZERO_VECTORS@) == ('s', 't'),
{
    reveal_strlit(
        "Motion vectors are all zero: the provider is enabled but writes nothing. Check that Lumenite_Kernel sits above DLSS5_Feed in the technique list.",
    );
}

proof fn mark_no_dlss()
    ensures
        NO_DLSS@.len() == 136,
        heads(NO_DLSS@) == ('N', 'X', 'r', 'e', 'p', 'r'),
        tails(NO_DLSS@) == ('i', 't'),
{
    reveal_strlit(
        "NGX reported DLSS unavailable. nvngx_dlss.dll must sit next to the game exe — re-run Install, and make sure antivirus did not remove it.",
    );
}

proof fn mark_feed_stopped()
    ensures
        FEED_STOPPED@.len() == 25,
        heads(FEED_STOPPED@) == ('T', 'e', 'f', 'e', 'e', ' '),
        tails(FEED_STOPPED@) == ('f', ':'),
{
    reveal_strlit(
        "The feed stopped itself: ",
    );
}

proof fn mark_old_compiler()
    ensures
        OLD_COMPILER@.len() == 217,
        tails(OLD_COMPILER@) == ('i', 'n'),
{
    reveal_strlit(
        " — the HLSL compiler in this process is too old for the DLSS 5 pass. That is a d3dcompiler_47.dll shipped with the game, loaded in preference to System32's. Rename it (d3dcompiler_47.dll.bak) and start the game again.",
    );
}

proof fn mark_redist_3()
    ensures
        REDIST_3@.len() == 273,
        tails(REDIST_3@) == ('o', 'r'),
{
    reveal_strlit(
        "). Rename it and start the game again: it falls back to the Windows runtime, which every device in the process can match. If the game will not start without it, verify the game files instead -- a D3D12Core.dll replaced or truncated by another tool gives exactly this error.",
    );
}

proof fn mark_no_redist()
    ensures
        NO_REDIST@.len() == 159,
        tails(NO_REDIST@) == ('e', 's'),
{
    reveal_strlit(
        "No D3D12Core.dll is next to the exe or in a D3D12 folder here, so the declaration points somewhere else or the file is missing outright. Verify the game files.",
    );
}

proof fn mark_loaded()
    ensures
        LOADED@.len() == 29,
        heads(LOADED@) == ('R', 'S', 'a', 'd', 'e', 'l'),
{
    reveal_strlit(
        "ReShade loaded into the game.",
    );
}

proof fn mark_registered()
    ensures
        REGISTERED@.len() == 46,
        heads(REGISTERED@) == ('T', 'e', 'D', 'L', 'S', ' '),
{
    reveal_strlit(
        "The DLSS 5 Neural Rendering add-on registered.",
    );
}

proof fn mark_toggled_on()
    ensures
        TOGGLED_ON@.len() == 37,
        heads(TOGGLED_ON@) == ('N', 'u', 'a', 'l', ' ', 'e'),
{
    reveal_strlit(
        "Neural rendering was toggled ON (F6).",
    );
}

proof fn mark_ran()
    ensures
        RAN@.len() == 188,
        heads(RAN@) == ('N', 'u', 'a', 'l', ' ', 'e'),
{
    reveal_strlit(
        "Neural rendering ran: the add-on evaluated the DLSS 5 model on real frames. If the picture still looks unchanged, raise NR Intensity / Local Structure in its panel — the default is subtle.",
    );
}

proof fn mark_bridge_runs()
    ensures
        BRIDGE_RUNS@.len() == 66,
        heads(BRIDGE_RUNS@) == ('T', 'e', 'D', 'X', '1', ' '),
{
    reveal_strlit(
        "The DX11 bridge opened its D3D12 session and is delivering frames.",
    );
}

proof fn mark_feed_ready()
    ensures
        FEED_READY@.len() == 59,
        heads(FEED_READY@) == ('D', 'S', '5', '-', 'F', 'e'),
{
    reveal_strlit(
        "DLSS5-Feeder built its DLSS feature (feature ready … DLAA).",
    );
}

proof fn mark_delivered()
    ensures
        DELIVERED@.len() == 35,
        heads(DELIVERED@) == ('F', 'a', 'e', 's', ' ', 'e'),
{
    reveal_strlit(
        "Frames were delivered to the model.",
    );
}

proof fn mark_host_ready()
    ensures
        HOST_READY@.len() == 64,
        heads(HOST_READY@) == ('T', 'e', 'h', 'o', 's', '6'),
{
    reveal_strlit(
        "The host64 helper built its DLSS feature (feature ready … DLAA).",
    );
}

proof fn mark_toggled_off()
    ensures
        TOGGLED_OFF@.len() == 83,
        heads(TOGGLED_OFF@) == ('T', 'e', 'l', 'o', 'g', 's'),
{
    reveal_strlit(
        "The log's last F6 state may be OFF — press F6 in game and watch the add-on's panel.",
    );
}

proof fn mark_saw_dlss()
    ensures
        SAW_DLSS@.len() == 191,
        heads(SAW_DLSS@) == ('T', 'e', 'a', 'd', 'd', 'o'),
{
    reveal_strlit(
        "The add-on saw the game's DLSS but has not evaluated the model yet (feature 18 never created). Enable DLSS in the game's own graphics settings and enable neural rendering in the add-on panel.",
    );
}

proof fn mark_no_host_log()
    ensures
        NO_HOST_LOG@.len() == 193,
        heads(NO_HOST_LOG@) == ('N', ' ', 'o', 's', 't', '4'),
{
    reveal_strlit(
        "No host64\\dlss5-feed-host.log yet: the 64-bit helper has not started. It is spawned by the first fed frame, so enable Lumenite_Kernel + DLSS5_Feed in ReShade's Home tab and play a moment first.",
    );
}

proof fn mark_crashed()
    ensures
        CRASHED@.len() == 176,
        heads(CRASHED@) == ('T', 'e', 'f', 'e', 'e', ' '),
{
    reveal_strlit(
        "The feed recorded a crash inside the DLSS 5 add-on (upstream issue #16). Play in borderless/windowed rather than exclusive fullscreen, and raise create_delay in dlss5-feed.cfg.",
    );
}

proof fn mark_compiler_1()
    ensures
        COMPILER_1@.len() == 43,
        heads(COMPILER_1@) == ('T', 'e', 'g', 'a', 'm', ' '),
{
    reveal_strlit(
        "The game ships its own d3dcompiler_47.dll (",
    );
}

proof fn mark_other_exe_1()
    ensures
        OTHER_EXE_1@.len() == 20,
        heads(OTHER_EXE_1@) == ('R', 'S', 'a', 'd', 'e', 'l'),
{
    reveal_strlit(
        "ReShade loaded into ",
    );
}

proof fn mark_old_feeder_1()
    ensures
        OLD_FEEDER_1@.len() == 13,
        heads(OLD_FEEDER_1@) == ('D', 'S', '5', '-', 'F', 'e'),
{
    reveal_strlit(
        "DLSS5-Feeder ",
    );
}

/// The texts of what is wrong.
pub proof fn bad_marks()
    ensures
        NO_LOG@.len() == 224,
        heads(NO_LOG@) == ('N', ' ', 'e', 'S', 'h', 'd'),
        tails(NO_LOG@) == ('c', 'k'),
        REFUSED@.len() == 57,
        heads(REFUSED@) == ('R', 'S', 'a', 'd', 'e', 'r'),
        tails(REFUSED@) == ('d', 'e'),
        NOT_REGISTERED@.len() == 153,
        heads(NOT_REGISTERED@) == ('T', 'e', 'D', 'L', 'S', ' '),
        tails(NOT_REGISTERED@) == ('u', 's'),
        NEEDS_BRIDGE@.len() == 273,
        heads(NEEDS_BRIDGE@) == ('N', ' ', 'G', 'X', ' ', 'a'),
        tails(NEEDS_BRIDGE@) == ('x', 'e'),
        DLSS_OFF@.len() == 189,
        heads(DLSS_OFF@) == ('N', ' ', 'G', 'X', ' ', 'a'),
        tails(DLSS_OFF@) == ('h', ')'),
        BRIDGE_STOPPED@.len() == 25,
        heads(BRIDGE_STOPPED@) == ('T', 'e', 'D', 'X', '1', ' '),
        tails(BRIDGE_STOPPED@) == ('d', ':'),
        NO_FEED@.len() == 106,
        heads(NO_FEED@) == ('N', ' ', 'l', 's', 's', '-'),
        tails(NO_FEED@) == ('a', 'b'),
        NOT_COMPILING@.len() == 107,
        heads(NOT_COMPILING@) == ('D', 'S', '5', '_', 'F', 'e'),
        tails(NOT_COMPILING@) == ('l', 'l'),
        NO_PROVIDER@.len() == 135,
        heads(NO_PROVIDER@) == ('T', 'e', 'm', 'o', 't', 'o'),
        tails(NO_PROVIDER@) == ('t', 's'),
        HYBRID_1@.len() == 42,
        heads(HYBRID_1@) == ('M', 'r', ' ', 't', 'h', 'n'),
        tails(HYBRID_1@) == ('e', ' '),
        NGX_1@.len() == 27,
        heads(NGX_1@) == ('N', 'X', 'r', 'e', 'f', 's'),
        tails(NGX_1@) == ('e', ':'),
        ZERO_VECTORS@.len() == 144,
        heads(ZERO_VECTORS@) == ('M', 't', 'o', 'n', ' ', 'e'),
        tails(ZERO_VECTORS@) == ('s', 't'),
        NO_DLSS@.len() == 136,
        heads(NO_DLSS@) == ('N', 'X', 'r', 'e', 'p', 'r'),
        tails(NO_DLSS@) == ('i', 't'),
        FEED_STOPPED@.len() == 25,
        heads(FEED_STOPPED@) == ('T', 'e', 'f', 'e', 'e', ' '),
        tails(FEED_STOPPED@) == ('f', ':'),
        OLD_COMPILER@.len() == 217,
        tails(OLD_COMPILER@) == ('i', 'n'),
        REDIST_3@.len() == 273,
        tails(REDIST_3@) == ('o', 'r'),
        NO_REDIST@.len() == 159,
        tails(NO_REDIST@) == ('e', 's'),
{
    mark_no_log();
    mark_refused();
    mark_not_registered();
    mark_needs_bridge();
    mark_dlss_off();
    mark_bridge_stopped();
    mark_no_feed();
    mark_not_compiling();
    mark_no_provider();
    mark_hybrid_1();
    mark_ngx_1();
    mark_zero_vectors();
    mark_no_dlss();
    mark_feed_stopped();
    mark_old_compiler();
    mark_redist_3();
    mark_no_redist();
}

/// The texts of what is fine.
pub proof fn fine_marks()
    ensures
        LOADED@.len() == 29,
        heads(LOADED@) == ('R', 'S', 'a', 'd', 'e', 'l'),
        REGISTERED@.len() == 46,
        heads(REGISTERED@) == ('T', 'e', 'D', 'L', 'S', ' '),
        TOGGLED_ON@.len() == 37,
        heads(TOGGLED_ON@) == ('N', 'u', 'a', 'l', ' ', 'e'),
        RAN@.len() == 188,
        heads(RAN@) == ('N', 'u', 'a', 'l', ' ', 'e'),
        BRIDGE_RUNS@.len() == 66,
        heads(BRIDGE_RUNS@) == ('T', 'e', 'D', 'X', '1', ' '),
        FEED_READY@.len() == 59,
        heads(FEED_READY@) == ('D', 'S', '5', '-', 'F', 'e'),
        DELIVERED@.len() == 35,
        heads(DELIVERED@) == ('F', 'a', 'e', 's', ' ', 'e'),
        HOST_READY@.len() == 64,
        heads(HOST_READY@) == ('T', 'e', 'h', 'o', 's', '6'),
{
    mark_loaded();
    mark_registered();
    mark_toggled_on();
    mark_ran();
    mark_bridge_runs();
    mark_feed_ready();
    mark_delivered();
    mark_host_ready();
}

/// The texts of what is doubtful.
pub proof fn warn_marks()
    ensures
        TOGGLED_OFF@.len() == 83,
        heads(TOGGLED_OFF@) == ('T', 'e', 'l', 'o', 'g', 's'),
        SAW_DLSS@.len() == 191,
        heads(SAW_DLSS@) == ('T', 'e', 'a', 'd', 'd', 'o'),
        NO_HOST_LOG@.len() == 193,
        heads(NO_HOST_LOG@) == ('N', ' ', 'o', 's', 't', '4'),
        CRASHED@.len() == 176,
        heads(CRASHED@) == ('T', 'e', 'f', 'e', 'e', ' '),
        COMPILER_1@.len() == 43,
        heads(COMPILER_1@) == ('T', 'e', 'g', 'a', 'm', ' '),
        OTHER_EXE_1@.len() == 20,
        heads(OTHER_EXE_1@) == ('R', 'S', 'a', 'd', 'e', 'l'),
        OLD_FEEDER_1@.len() == 13,
        heads(OLD_FEEDER_1@) == ('D', 'S', '5', '-', 'F', 'e'),
{
    mark_toggled_off();
    mark_saw_dlss();
    mark_no_host_log();
    mark_crashed();
    mark_compiler_1();
    mark_other_exe_1();
    mark_old_feeder_1();
}

} // verus!
