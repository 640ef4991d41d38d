//! The components of an install, as the window lists them.
use vstd::prelude::*;

use crate::cli::Engine;
use crate::game::{GameStatus, Mode};

verus! {

/// One component.
#[derive(Debug, Clone, Copy, PartialEq, Eq, Structural)]
pub enum Tile {
    ReShade,
    Headers,
    Feeder,
    Lumenite,
    Addon,
    Dlss,
    Opti,
    GameDlss,
    Bridge,
    Upstream,
    Host,
    Renodx,
    Reframework,
}

impl Tile {
    pub open spec fn named(self) -> Seq<char> {
        match self {
            Tile::ReShade => "ReShade"@,
            Tile::Headers => "Shader headers"@,
            Tile::Feeder => "DLSS5-Feeder"@,
            Tile::Lumenite => "LumeniteFX"@,
            Tile::Addon => "DLSS 5 add-on · leaked"@,
            Tile::Dlss => "nvngx_dlss.dll"@,
            Tile::Opti => "OptiScaler + NR pass"@,
            Tile::GameDlss => "Game DLSS"@,
            Tile::Bridge => "DX11 bridge"@,
            Tile::Upstream => "Neural Upstream · experimental"@,
            Tile::Host => "host64 helper (32-bit game)"@,
            Tile::Renodx => "RenoDX HDR mod"@,
            Tile::Reframework => "REFramework"@,
        }
    }

    pub fn title(self) -> (r: &'static str)
        ensures
            r@ == self.named(),
    {
        match self {
            Tile::ReShade => "ReShade",
            Tile::Headers => "Shader headers",
            Tile::Feeder => "DLSS5-Feeder",
            Tile::Lumenite => "LumeniteFX",
            Tile::Addon => "DLSS 5 add-on · leaked",
            Tile::Dlss => "nvngx_dlss.dll",
            Tile::Opti => "OptiScaler + NR pass",
            Tile::GameDlss => "Game DLSS",
            Tile::Bridge => "DX11 bridge",
            Tile::Upstream => "Neural Upstream · experimental",
            Tile::Host => "host64 helper (32-bit game)",
            Tile::Renodx => "RenoDX HDR mod",
            Tile::Reframework => "REFramework",
        }
    }

    pub open spec fn described(self) -> Seq<char> {
        match self {
            Tile::ReShade => "add-on build · dxgi.dll"@,
            Tile::Headers => "ReShade.fxh · ReShadeUI.fxh · DrawText.fxh"@,
            Tile::Feeder => "dlss5-feed.addon64 · DLSS5_Feed.fx"@,
            Tile::Lumenite => "motion vectors · Kernel 2.0"@,
            Tile::Addon => "renodx-dlss5.addon64 · nvngx_dlssnr.dll"@,
            Tile::Dlss => "DLSS runtime · the Feeder's NGX session needs it"@,
            Tile::Opti => "Dagherbou fork as dxgi.dll · Insert opens its overlay"@,
            Tile::GameDlss => "nvngx_dlss.dll shipped by the game · add-on hooks it directly"@,
            Tile::Bridge => "dlss5-bridge.addon64 (NIGos) · D3D11 games"@,
            Tile::Upstream => "nvngx.dll.addon64 (matiasLombo) · nvngx_dlssnr.dll"@,
            Tile::Host => "dlss5-feed-host64.exe + 64-bit ReShade · add-on and models live in host64\\"@,
            Tile::Renodx => "game-specific renodx-*.addon64 · Home → Add-ons → RenoDX"@,
            Tile::Reframework => "dinput8.dll · RE Engine games need it before ReShade"@,
        }
    }

    pub fn detail(self) -> (r: &'static str)
        ensures
            r@ == self.described(),
    {
        match self {
            Tile::ReShade => "add-on build · dxgi.dll",
            Tile::Headers => "ReShade.fxh · ReShadeUI.fxh · DrawText.fxh",
            Tile::Feeder => "dlss5-feed.addon64 · DLSS5_Feed.fx",
            Tile::Lumenite => "motion vectors · Kernel 2.0",
            Tile::Addon => "renodx-dlss5.addon64 · nvngx_dlssnr.dll",
            Tile::Dlss => "DLSS runtime · the Feeder's NGX session needs it",
            Tile::Opti => "Dagherbou fork as dxgi.dll · Insert opens its overlay",
            Tile::GameDlss => "nvngx_dlss.dll shipped by the game · add-on hooks it directly",
            Tile::Bridge => "dlss5-bridge.addon64 (NIGos) · D3D11 games",
            Tile::Upstream => "nvngx.dll.addon64 (matiasLombo) · nvngx_dlssnr.dll",
            Tile::Host => "dlss5-feed-host64.exe + 64-bit ReShade · add-on and models live in host64\\",
            Tile::Renodx => "game-specific renodx-*.addon64 · Home → Add-ons → RenoDX",
            Tile::Reframework => "dinput8.dll · RE Engine games need it before ReShade",
        }
    }

    /// The game can do without it.
    pub open spec fn is_optional(self) -> bool {
        self == Tile::Bridge || self == Tile::Renodx
    }

    pub fn optional(self) -> (r: bool)
        ensures
            r == self.is_optional(),
    {
        self == Tile::Bridge || self == Tile::Renodx
    }

    /// It is in the game's folder.
    pub open spec fn there(self, st: &GameStatus) -> bool {
        match self {
            Tile::ReShade => st.reshade,
            Tile::Headers => st.headers,
            Tile::Feeder => st.feeder,
            Tile::Lumenite => st.lumenite,
            Tile::Addon => st.dlss5_addon && st.dlssnr,
            Tile::Dlss => st.dlss,
            Tile::Opti => st.opti,
            Tile::GameDlss => true,
            Tile::Bridge => st.bridge,
            Tile::Upstream => st.upstream && st.dlssnr,
            Tile::Host => st.host_exe && st.host_reshade,
            Tile::Renodx => st.renodx_mod is Some,
            Tile::Reframework => st.reframework,
        }
    }

    pub fn ok(self, st: &GameStatus) -> (r: bool)
        ensures
            r == self.there(st),
    {
        match self {
            Tile::ReShade => st.reshade,
            Tile::Headers => st.headers,
            Tile::Feeder => st.feeder,
            Tile::Lumenite => st.lumenite,
            Tile::Addon => st.dlss5_addon && st.dlssnr,
            Tile::Dlss => st.dlss,
            Tile::Opti => st.opti,
            Tile::GameDlss => true,
            Tile::Bridge => st.bridge,
            Tile::Upstream => st.upstream && st.dlssnr,
            Tile::Host => st.host_exe && st.host_reshade,
            Tile::Renodx => st.renodx_mod.is_some(),
            Tile::Reframework => st.reframework,
        }
    }

    /// How the component stands in a game of that status.
    pub open spec fn stands(self, st: Option<&GameStatus>) -> TileState {
        if st is Some && self.there(st->0) {
            TileState::Installed
        } else if self.is_optional() {
            TileState::NotNeeded
        } else {
            TileState::Missing
        }
    }

    /// What the window says of the component.
    pub fn state(self, st: Option<&GameStatus>) -> (r: TileState)
        ensures
            r == self.stands(st),
    {
        let ok = match st {
            Some(s) => self.ok(s),
            None => false,
        };
        if ok {
            TileState::Installed
        } else if self.optional() {
            TileState::NotNeeded
        } else {
            TileState::Missing
        }
    }
}

#[derive(Debug, Clone, Copy, PartialEq, Eq, Structural)]
pub enum TileState {
    Installed,
    NotNeeded,
    Missing,
}

impl TileState {
    pub fn label(self) -> (r: &'static str)
        ensures
            r@ == (match self {
                TileState::Installed => "installed"@,
                TileState::NotNeeded => "not needed"@,
                TileState::Missing => "missing"@,
            }),
    {
        match self {
            TileState::Installed => "installed",
            TileState::NotNeeded => "not needed",
            TileState::Missing => "missing",
        }
    }
}

/// What the engine needs in a game with its own DLSS.
pub open spec fn native_tiles(st: &GameStatus, engine: Engine, upstream_on: bool) -> Seq<Tile> {
    if engine == Engine::Opti || st.opti {
        seq![Tile::GameDlss, Tile::Opti, Tile::Addon]
    } else {
        seq![
            Tile::GameDlss,
            Tile::ReShade,
            if upstream_on || st.upstream {
                Tile::Upstream
            } else {
                Tile::Addon
            },
        ] + (if st.bridged() {
            seq![Tile::Bridge]
        } else {
            Seq::empty()
        })
    }
}

/// What is listed whatever the game's engine and bitness; the Feeder's
/// components where nothing is known of the game.
pub open spec fn base(st: Option<&GameStatus>, engine: Engine, upstream_on: bool) -> Seq<Tile> {
    if st is Some && st->0.mode == Mode::Native {
        native_tiles(st->0, engine, upstream_on)
    } else {
        seq![
            Tile::ReShade,
            Tile::Headers,
            Tile::Feeder,
            Tile::Lumenite,
            Tile::Addon,
            Tile::Dlss,
        ]
    }
}

/// REFramework comes first, the 32-bit helper second, the HDR mod last.
pub open spec fn listed(
    st: Option<&GameStatus>,
    engine: Engine,
    renodx_on: bool,
    upstream_on: bool,
) -> Seq<Tile> {
    let all = base(st, engine, upstream_on);
    let all = if st is Some && st->0.re_engine {
        seq![Tile::Reframework] + all
    } else {
        all
    };
    let all = if st is Some && st->0.bitness == 32 {
        all.take(1) + seq![Tile::Host] + all.skip(1)
    } else {
        all
    };
    if renodx_on || (st is Some && st->0.renodx_mod is Some) {
        all.push(Tile::Renodx)
    } else {
        all
    }
}

fn base_tiles(st: Option<&GameStatus>, engine: Engine, upstream_on: bool) -> (r: Vec<Tile>)
    ensures
        r@ == base(st, engine, upstream_on),
{
    match st {
        Some(s) if s.mode == Mode::Native => {
            if engine == Engine::Opti || s.opti {
                vec![Tile::GameDlss, Tile::Opti, Tile::Addon]
            } else {
                let consumer = if upstream_on || s.upstream {
                    Tile::Upstream
                } else {
                    Tile::Addon
                };
                let mut v = vec![Tile::GameDlss, Tile::ReShade, consumer];
                if s.needs_bridge() {
                    v.push(Tile::Bridge);
                }
                assert(v@ =~= native_tiles(s, engine, upstream_on));
                v
            }
        },
        _ => vec![
            Tile::ReShade,
            Tile::Headers,
            Tile::Feeder,
            Tile::Lumenite,
            Tile::Addon,
            Tile::Dlss,
        ],
    }
}

/// The components to list, in the order of the list.
pub fn tiles_for(
    st: Option<&GameStatus>,
    engine: Engine,
    renodx_on: bool,
    upstream_on: bool,
) -> (r: Vec<Tile>)
    ensures
        r@ == listed(st, engine, renodx_on, upstream_on),
{
    let mut v = base_tiles(st, engine, upstream_on);
    let mut with_mod = renodx_on;
    if let Some(s) = st {
        if s.re_engine {
            let ghost all = v@;
            v.insert(0, Tile::Reframework);
            assert(v@ =~= seq![Tile::Reframework] + all);
        }
        if s.is32() {
            let ghost all = v@;
            v.insert(1, Tile::Host);
            assert(v@ =~= all.take(1) + seq![Tile::Host] + all.skip(1));
        }
        with_mod = with_mod || s.renodx_mod.is_some();
    }
    if with_mod {
        v.push(Tile::Renodx);
    }
    v
}

} // verus!
