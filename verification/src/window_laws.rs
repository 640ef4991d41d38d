//! What the window lists, offers and reports.
use vstd::prelude::*;

use crate::api::Api;
use crate::chars::lower;
use crate::cli::Engine;
use crate::diagnose::{Level, Note};
use crate::game::{has_marker, GameStatus, Mode, VULKAN_PROBLEM};
use crate::library::{GameView, Store};
use crate::numbers::dec;
use crate::paths::{below, name_of, same_path};
use crate::pe::bitness;
use crate::renodx::status_says;
use crate::session::{
    after_msgs, bar_says, end_of, ended, is_checkable, is_recheck_due, logged, move_for, step_says,
    update_after, JobView, LineView, Msg, StepState, UpdateMove, UpdateState,
};
use crate::setup::{
    bar_filled, game_facts, hdr_says, is_due, is_startable, obstacles, path_says, picked,
    progress_says, shown_name, typed_path, used, HdrView, RenodxLookup,
};
use crate::shelf::{
    asked_of, card_says, dx12_count, group_of, groups_upto, is_menu, is_meta, is_note, opened,
    ready_count, section_of, section_order, section_places, stale_count, without_added, CardAction,
    CardMenu, GameMeta, GroupNote, Section,
};
use crate::strs::{ends, join, occurs, starts, texts, trim, trim_end_char, trim_start_char};
use crate::text::tidied;
use crate::tiles::{base, listed, Tile, TileState};
use crate::tree::Node;

verus! {

/// The game has its own DLSS.
pub open spec fn has_own_dlss(st: Option<&GameStatus>) -> bool {
    st is Some && st->0.mode == Mode::Native
}

/// OptiScaler is chosen or already there.
pub open spec fn goes_opti(st: Option<&GameStatus>, engine: Engine) -> bool {
    engine == Engine::Opti || (st is Some && st->0.opti)
}

proof fn base_has(st: Option<&GameStatus>, engine: Engine, upstream_on: bool, t: Tile)
    ensures
        base(st, engine, upstream_on).len() >= 3,
        base(st, engine, upstream_on).contains(t) <==> {
            let native = has_own_dlss(st);
            let opti = native && goes_opti(st, engine);
            let up = upstream_on || (st is Some && st->0.upstream);
            match t {
                Tile::ReShade => !opti,
                Tile::Headers | Tile::Feeder | Tile::Lumenite | Tile::Dlss => !native,
                Tile::Addon => !native || opti || !up,
                Tile::Upstream => native && !opti && up,
                Tile::Opti => opti,
                Tile::GameDlss => native,
                Tile::Bridge => native && !opti && st->0.api == Api::Dx11,
                Tile::Host | Tile::Renodx | Tile::Reframework => false,
            }
        },
{
    let b = base(st, engine, upstream_on);
    if has_own_dlss(st) {
        let s = st->0;
        if goes_opti(st, engine) {
            assert(b[0] == Tile::GameDlss && b[1] == Tile::Opti && b[2] == Tile::Addon);
        } else {
            assert(b[0] == Tile::GameDlss && b[1] == Tile::ReShade);
            assert(b[2] == (if upstream_on || s.upstream {
                Tile::Upstream
            } else {
                Tile::Addon
            }));
            if s.api == Api::Dx11 {
                assert(b[3] == Tile::Bridge);
            }
        }
    } else {
        assert(b[0] == Tile::ReShade && b[1] == Tile::Headers && b[2] == Tile::Feeder);
        assert(b[3] == Tile::Lumenite && b[4] == Tile::Addon && b[5] == Tile::Dlss);
    }
}

/// What is listed follows the game: the Feeder's pieces without a DLSS of its own,
/// the engine's pieces with one, the bridge for Direct3D 11 behind ReShade, the
/// helper for 32 bits, REFramework for the RE Engine, and the HDR mod where it is
/// wanted or there.
pub proof fn law_listed(
    st: Option<&GameStatus>,
    engine: Engine,
    renodx_on: bool,
    upstream_on: bool,
    t: Tile,
)
    ensures
        listed(st, engine, renodx_on, upstream_on).contains(t) <==> {
            let native = has_own_dlss(st);
            let opti = native && goes_opti(st, engine);
            let up = upstream_on || (st is Some && st->0.upstream);
            match t {
                Tile::ReShade => !opti,
                Tile::Headers | Tile::Feeder | Tile::Lumenite | Tile::Dlss => !native,
                Tile::Addon => !native || opti || !up,
                Tile::Upstream => native && !opti && up,
                Tile::Opti => opti,
                Tile::GameDlss => native,
                Tile::Bridge => native && !opti && st->0.api == Api::Dx11,
                Tile::Host => st is Some && st->0.bitness == 32,
                Tile::Renodx => renodx_on || (st is Some && st->0.renodx_mod is Some),
                Tile::Reframework => st is Some && st->0.re_engine,
            }
        },
{
    base_has(st, engine, upstream_on, t);
    let b = base(st, engine, upstream_on);
    let first = if st is Some && st->0.re_engine {
        seq![Tile::Reframework]
    } else {
        Seq::empty()
    };
    let a = first + b;
    assert(first.len() == 0 ==> a =~= b);
    joins(first, b, t);
    let h = if st is Some && st->0.bitness == 32 {
        a.take(1) + seq![Tile::Host] + a.skip(1)
    } else {
        a
    };
    if st is Some && st->0.bitness == 32 {
        assert(a.take(1) + a.skip(1) =~= a);
        joins(a.take(1), a.skip(1), t);
        joins(a.take(1), seq![Tile::Host], t);
        joins(a.take(1) + seq![Tile::Host], a.skip(1), t);
        assert(seq![Tile::Host][0] == Tile::Host);
    }
    let mods = if renodx_on || (st is Some && st->0.renodx_mod is Some) {
        seq![Tile::Renodx]
    } else {
        Seq::empty()
    };
    joins(h, mods, t);
    assert(listed(st, engine, renodx_on, upstream_on) =~= h + mods);
    if mods.len() > 0 {
        assert(mods[0] == Tile::Renodx);
    }
    if first.len() > 0 {
        assert(first[0] == Tile::Reframework);
    }
}

proof fn joins(a: Seq<Tile>, b: Seq<Tile>, t: Tile)
    ensures
        (a + b).contains(t) <==> a.contains(t) || b.contains(t),
{
    let s = a + b;
    if a.contains(t) {
        let i = choose|i: int| 0 <= i < a.len() && a[i] == t;
        assert(s[i] == t);
    }
    if b.contains(t) {
        let i = choose|i: int| 0 <= i < b.len() && b[i] == t;
        assert(s[a.len() + i] == t);
    }
    if s.contains(t) {
        let i = choose|i: int| 0 <= i < s.len() && s[i] == t;
        if i < a.len() {
            assert(a[i] == t);
        } else {
            assert(b[i - a.len()] == t);
        }
    }
}

/// REFramework stands first, and the HDR mod last.
pub proof fn law_listed_order(
    st: Option<&GameStatus>,
    engine: Engine,
    renodx_on: bool,
    upstream_on: bool,
)
    ensures
        st is Some && st->0.re_engine ==> listed(st, engine, renodx_on, upstream_on)[0]
            == Tile::Reframework,
        renodx_on || (st is Some && st->0.renodx_mod is Some) ==> listed(
            st,
            engine,
            renodx_on,
            upstream_on,
        ).last() == Tile::Renodx,
        st is Some && st->0.bitness == 32 ==> listed(st, engine, renodx_on, upstream_on)[1]
            == Tile::Host,
{
    base_has(st, engine, upstream_on, Tile::Host);
}

/// On the Feeder's path the game is complete exactly where every piece that is
/// listed and needed is there.
pub proof fn law_complete_when_all_there(st: &GameStatus, engine: Engine, upstream_on: bool)
    requires
        st.mode == Mode::Feeder,
        !st.re_engine,
        st.renodx_mod is None,
    ensures
        st.is_complete() <==> forall|t: Tile| #[trigger]
            listed(Some(st), engine, false, upstream_on).contains(t) ==> t.there(st),
{
    let v = listed(Some(st), engine, false, upstream_on);
    assert forall|t: Tile| #[trigger] v.contains(t) <==> {
        ||| t == Tile::ReShade
        ||| t == Tile::Headers
        ||| t == Tile::Feeder
        ||| t == Tile::Lumenite
        ||| t == Tile::Addon
        ||| t == Tile::Dlss
        ||| t == Tile::Host && st.bitness == 32
    } by {
        law_listed(Some(st), engine, false, upstream_on, t);
    }
    assert(v.contains(Tile::ReShade) && v.contains(Tile::Headers) && v.contains(Tile::Feeder));
    assert(v.contains(Tile::Lumenite) && v.contains(Tile::Addon) && v.contains(Tile::Dlss));
    assert(v.contains(Tile::Host) <==> st.bitness == 32);
}

/// A piece is there where its files are: an add-on never without the model, the
/// helper never without its ReShade. The game's own DLSS is always there.
pub proof fn law_there(st: &GameStatus)
    ensures
        Tile::Addon.there(st) <==> st.dlss5_addon && st.dlssnr,
        Tile::Upstream.there(st) <==> st.upstream && st.dlssnr,
        Tile::Host.there(st) <==> st.host_exe && st.host_reshade,
        Tile::GameDlss.there(st),
        Tile::ReShade.there(st) <==> st.reshade,
        Tile::Headers.there(st) <==> st.headers,
        Tile::Feeder.there(st) <==> st.feeder,
        Tile::Lumenite.there(st) <==> st.lumenite,
        Tile::Dlss.there(st) <==> st.dlss,
        Tile::Opti.there(st) <==> st.opti,
        Tile::Bridge.there(st) <==> st.bridge,
        Tile::Renodx.there(st) <==> st.renodx_mod is Some,
        Tile::Reframework.there(st) <==> st.reframework,
{
}

/// A piece is installed exactly where it is there; one that is not there is
/// missing unless it can be done without.
pub proof fn law_tile_state(t: Tile, st: &GameStatus)
    ensures
        t.stands(Some(st)) == TileState::Installed <==> t.there(st),
        t.stands(Some(st)) == TileState::Missing <==> !t.there(st) && t != Tile::Bridge && t
            != Tile::Renodx,
        t.stands(None) != TileState::Installed,
{
}

/// A card shows what the status says: the API, a DLSS of the game's own, an add-on
/// of either engine, whether all is in place, and whether this tool was here.
pub proof fn law_meta(m: GameMeta, st: &GameStatus, folder: Seq<Node>, stale: Vec<String>)
    requires
        is_meta(m, st, folder, stale),
    ensures
        m.addon <==> st.dlss5_addon || st.opti,
        m.has_dlss <==> st.mode == Mode::Native,
        m.ready <==> st.is_complete(),
        m.installed <==> has_marker(folder),
        m.stale@.len() > 0 <==> stale@.len() > 0,
        st.api == Api::Dx12 ==> m.api@ == "DirectX 12"@,
        st.api == Api::Dx11 ==> m.api@ == "DirectX 11"@,
        st.api == Api::Dx10 ==> m.api@ == "DirectX 10"@,
        st.api == Api::Dx9 ==> m.api@ == "DirectX 9"@,
        st.api == Api::Vulkan ==> m.api@ == "Vulkan"@,
        st.api == Api::Unknown ==> m.api@ == "Unknown"@,
{
}

/// An install is offered again only for a game that this tool installed into, as
/// an update where something is out of date; only what was added by hand can be
/// forgotten.
pub proof fn law_menu(m: CardMenu, store: Store, metas: Seq<Option<GameMeta>>, i: int)
    requires
        is_menu(m, store, metas, i),
    ensures
        m.update is Some <==> 0 <= i < metas.len() && metas[i] is Some && metas[i]->0.installed,
        m.update matches Some(t) ==> (t@ == "Update"@ <==> metas[i]->0.stale@.len() > 0),
        m.forget <==> store == Store::Manual,
{
    reveal_strlit("Update");
    reveal_strlit("Re-install");
    assert("Update"@.len() != "Re-install"@.len());
}

/// What is out of date is told before what is ready.
pub proof fn law_note(n: GroupNote, stale: nat, ready: nat)
    requires
        is_note(n, stale, ready),
    ensures
        n is Behind <==> stale > 0,
        n is Ready <==> stale == 0 && ready > 0,
        n is Nothing <==> stale == 0 && ready == 0,
        n matches GroupNote::Behind(t) ==> t@ == dec(stale) + " need updating"@,
        n matches GroupNote::Ready(t) ==> t@ == dec(ready) + " ready for DLSS 5"@,
{
}

/// A look for an update can be asked for exactly while there is none and none is
/// being looked for.
pub proof fn law_checkable(state: UpdateState, in_flight: bool)
    ensures
        is_checkable(state, in_flight) ==> state is Idle && !in_flight,
        state is Idle && !in_flight ==> is_checkable(state, in_flight),
        is_recheck_due(state, in_flight, 1800) <==> is_checkable(state, in_flight),
{
}

/// Each piece is listed under its own name.
pub proof fn law_tile_names(t: Tile)
    ensures
        t == Tile::ReShade ==> t.named() == "ReShade"@,
        t == Tile::Headers ==> t.named() == "Shader headers"@,
        t == Tile::Feeder ==> t.named() == "DLSS5-Feeder"@,
        t == Tile::Lumenite ==> t.named() == "LumeniteFX"@,
        t == Tile::Addon ==> t.named() == "DLSS 5 add-on · leaked"@,
        t == Tile::Dlss ==> t.named() == "nvngx_dlss.dll"@,
        t == Tile::Opti ==> t.named() == "OptiScaler + NR pass"@,
        t == Tile::GameDlss ==> t.named() == "Game DLSS"@,
        t == Tile::Bridge ==> t.named() == "DX11 bridge"@,
        t == Tile::Upstream ==> t.named() == "Neural Upstream · experimental"@,
        t == Tile::Host ==> t.named() == "host64 helper (32-bit game)"@,
        t == Tile::Renodx ==> t.named() == "RenoDX HDR mod"@,
        t == Tile::Reframework ==> t.named() == "REFramework"@,
{
}

/// Only the bridge and the HDR mod can be done without.
pub proof fn law_optional(t: Tile)
    ensures
        t.is_optional() <==> t == Tile::Bridge || t == Tile::Renodx,
{
}

/// An install is started only for a game that was read, that nothing stands in
/// the way of, and while nothing runs. Vulkan stands in the way of ReShade alone.
pub proof fn law_startable(s: GameStatus, running: bool)
    ensures
        ({
            let st = Some(Ok::<GameStatus, String>(s));
            &&& is_startable(st, Engine::Opti, running) <==> s.problems@.len() == 0 && !running
            &&& is_startable(st, Engine::ReShade, running) <==> s.problems@.len() == 0 && !running
                && s.api != Api::Vulkan
        }),
        forall|e: String, engine: Engine|
            !#[trigger] is_startable(Some(Err::<GameStatus, String>(e)), engine, running),
        forall|engine: Engine|
            !#[trigger] is_startable(None::<Result<GameStatus, String>>, engine, running),
{
    assert(texts(s.problems@).len() == s.problems@.len());
}

/// What stands in the way of a game is told for both engines, the obstacle of
/// Vulkan for ReShade only, and of a game that could not be read the reason.
pub proof fn law_obstacles(s: GameStatus, e: String, engine: Engine, i: int)
    ensures
        0 <= i < s.problems@.len() ==> obstacles(Some(Ok(s)), engine)[i] == s.problems@[i]@,
        s.api == Api::Vulkan ==> obstacles(Some(Ok(s)), Engine::ReShade).last() == VULKAN_PROBLEM@
            && obstacles(Some(Ok(s)), Engine::ReShade).len() == s.problems@.len() + 1,
        obstacles(Some(Ok(s)), Engine::Opti).len() == s.problems@.len(),
        s.api != Api::Vulkan ==> obstacles(Some(Ok(s)), engine).len() == s.problems@.len(),
        obstacles(Some(Err::<GameStatus, String>(e)), engine) == seq![e@],
{
}

/// A game without a DLSS of its own is set up with ReShade and the stable add-on,
/// whatever is chosen; one with its own as chosen.
pub proof fn law_used(st: Option<&GameStatus>, engine: Engine, upstream: bool)
    ensures
        !has_own_dlss(st) ==> used(st, engine, upstream).0 == Engine::ReShade && !used(
            st,
            engine,
            upstream,
        ).1,
        has_own_dlss(st) ==> used(st, engine, upstream).0 == engine && used(
            st,
            engine,
            upstream,
        ).1 == upstream,
{
}

proof fn cut_end(s: Seq<char>, c: char)
    ensures
        trim_end_char(s, c).len() <= s.len(),
        trim_end_char(s, c) == s.take(trim_end_char(s, c).len() as int),
        trim_end_char(s, c).len() > 0 ==> trim_end_char(s, c).last() != c,
        forall|i: int| trim_end_char(s, c).len() <= i < s.len() ==> s[i] == c,
    decreases s.len(),
{
    if s.len() > 0 && s.last() == c {
        cut_end(s.drop_last(), c);
        let n = trim_end_char(s, c).len() as int;
        assert(s.drop_last().take(n) =~= s.take(n));
        assert forall|i: int| n <= i < s.len() implies s[i] == c by {
            if i < s.len() - 1 {
                assert(s.drop_last()[i] == s[i]);
            }
        }
    } else {
        assert(s.take(s.len() as int) =~= s);
    }
}

proof fn cut_start(s: Seq<char>, c: char)
    ensures
        trim_start_char(s, c).len() <= s.len(),
        trim_start_char(s, c) == s.skip(s.len() - trim_start_char(s, c).len()),
        trim_start_char(s, c).len() > 0 ==> trim_start_char(s, c)[0] != c,
    decreases s.len(),
{
    if s.len() > 0 && s[0] == c {
        cut_start(s.drop_first(), c);
        let n = trim_start_char(s, c).len();
        assert(s.drop_first().skip(s.len() - 1 - n) =~= s.skip(s.len() - n));
    } else {
        assert(s.skip(0) =~= s);
    }
}

/// A typed path has no quotes at its ends; what stands between spaces and quotes
/// is the path.
pub proof fn law_typed_path(text: Seq<char>, path: Seq<char>)
    ensures
        typed_path(text).len() > 0 ==> typed_path(text)[0] != '"' && typed_path(text).last() != '"',
        trim(text) == seq!['"'] + path + seq!['"'] && path.len() > 0 && path[0] != '"'
            && path.last() != '"' ==> typed_path(text) == path,
        trim(text) == path && path.len() > 0 && path[0] != '"' && path.last() != '"'
            ==> typed_path(text) == path,
{
    let t = trim(text);
    cut_end(t, '"');
    let e = trim_end_char(t, '"');
    cut_start(e, '"');
    if t == seq!['"'] + path + seq!['"'] && path.len() > 0 && path[0] != '"' && path.last() != '"' {
        assert(t.drop_last() =~= seq!['"'] + path);
        assert(t.drop_last().last() == path.last());
        assert(trim_end_char(t.drop_last(), '"') == t.drop_last());
        assert(e == seq!['"'] + path);
        assert(e.drop_first() =~= path);
        assert(trim_start_char(path, '"') == path);
    }
}

/// What was picked before stays picked while it is among several candidates;
/// otherwise the best one is picked.
pub proof fn law_picked(before: Seq<char>, best: Seq<char>, all: Seq<Seq<char>>, i: int)
    ensures
        all.len() > 1 && 0 <= i < all.len() && same_path(all[i], before) ==> picked(
            Some(before),
            best,
            all,
        ) == before,
        all.len() <= 1 ==> picked(Some(before), best, all) == best,
        (forall|k: int| 0 <= k < all.len() ==> !same_path(#[trigger] all[k], before)) ==> picked(
            Some(before),
            best,
            all,
        ) == best,
        picked(None, best, all) == best,
{
}

/// The mod is looked up again exactly where another executable is set up than
/// the one that it was looked up for.
pub proof fn law_lookup_due(a: Seq<char>, b: Seq<char>)
    ensures
        is_due(Some(a), Some(b)) <==> !same_path(a, b),
        is_due(Some(a), None),
        !is_due(None, None),
{
}

/// A mod that is installed is named, one of another's is left alone, and only
/// where there is neither is a mod offered that was found.
pub proof fn law_hdr(st: &GameStatus, l: RenodxLookup, engine: Engine)
    ensures
        hdr_says(st, l, engine) is Offer <==> st.renodx_mod is None && st.foreign_renodx@.len()
            == 0 && l is Found,
        l matches RenodxLookup::Found(m) ==> (hdr_says(st, l, engine) matches HdrView::Offer {
            label,
            remarks,
        } ==> label == "Also install "@ + m.file@ + " — "@ + status_says(m.status@)
            && remarks.len() == (if engine == Engine::Opti {
            1int
        } else {
            0
        }) + (if m.note@.len() > 0 {
            1int
        } else {
            0
        })),
{
}

/// What is said of the mod where none is offered: that one is installed, that
/// another's is there, that one is being looked for, that there is none, or that it
/// could not be found out.
pub proof fn law_hdr_remarks(st: &GameStatus, l: RenodxLookup, engine: Engine)
    ensures
        ({
            let says = hdr_says(st, l, engine);
            let free = st.renodx_mod is None && st.foreign_renodx@.len() == 0;
            &&& st.renodx_mod is Some ==> says == HdrView::Remark(
                "— installed: "@ + st.renodx_mod->0@ + " (Remove takes it out too)"@,
            )
            &&& st.renodx_mod is None && st.foreign_renodx@.len() > 0 ==> says == HdrView::Remark(
                "— already present, not installed by this tool: "@ + join(
                    texts(st.foreign_renodx@),
                    ", "@,
                ) + " (left untouched; ReShade loads one RenoDX mod per game)"@,
            )
            &&& free && (l is Idle || l is Pending) ==> says == HdrView::Remark(
                "— looking up clshortfuse/renodx for this game…"@,
            )
            &&& free && l is NotFound ==> says == HdrView::Remark(
                "— no RenoDX mod is published for this game."@,
            )
            &&& l matches RenodxLookup::Failed(e) ==> (free ==> says == HdrView::Remark(
                "— lookup failed: "@ + e@,
            ))
        }),
{
}

/// The bar is full when nothing runs and the work is done or was never needed,
/// shows the progress while something runs, and is empty otherwise.
pub proof fn law_bar(progress: u8, complete: bool)
    ensures
        bar_filled(true, progress, complete) == progress,
        bar_filled(false, progress, complete) == 100 <==> complete || progress == 100,
        bar_filled(false, progress, complete) == 0 || bar_filled(false, progress, complete) == 100,
{
}

/// A message of the work is shown before anything else; without one, a complete
/// install says so.
pub proof fn law_progress(running: bool, msg: Seq<char>, complete: bool)
    ensures
        msg.len() > 0 ==> progress_says(running, msg, complete) == msg,
        msg.len() == 0 && !running && complete ==> progress_says(running, msg, complete)
            == "Everything is in place."@,
        msg.len() == 0 && (running || !complete) ==> progress_says(running, msg, complete).len()
            == 0,
{
}

/// An error is logged as a failure and anything fine as fine, a finding by its
/// level, with its text tidied.
pub proof fn law_log_lines(i: nat, n: nat, name: Seq<char>, detail: Seq<char>, f: Note)
    ensures
        step_says(i, n, name, StepState::Start, detail) is Step,
        step_says(i, n, name, StepState::Done, detail) == LineView::Fine("ok: "@ + detail),
        step_says(i, n, name, StepState::Error, detail) == LineView::Fail("FAILED: "@ + detail),
        logged(f) is Fine <==> f.0 == Level::Fine,
        logged(f) is Fail <==> f.0 == Level::Bad,
        logged(f) is Plain <==> f.0 == Level::Warn,
        f.0 == Level::Bad ==> logged(f) == LineView::Fail("FAIL: "@ + tidied(f.1)),
{
}

/// A job that ends well is done and shows no new error; one that fails keeps its
/// error. Either way it does not run, and the log has one line more.
pub proof fn law_job_end(j: JobView, ok: String, err: String)
    ensures
        ({
            let d = ended(j, Ok::<String, String>(ok));
            &&& !d.running && d.progress == 100 && d.last_error == j.last_error
            &&& d.log == j.log.push(LineView::Plain(ok@))
        }),
        ({
            let d = ended(j, Err::<String, String>(err));
            &&& !d.running && d.progress == j.progress && d.last_error == Some(err@)
            &&& d.log == j.log.push(LineView::Fail(err@))
        }),
{
}

/// Each report is taken in in its order: a line goes to the end of the log and
/// changes nothing else, progress changes no line.
pub proof fn law_reports(j: JobView, ms: Seq<Msg>, m: Msg)
    ensures
        m matches Msg::Log(l) ==> after_msgs(j, ms.push(m)).log == after_msgs(j, ms).log.push(l@)
            && after_msgs(j, ms.push(m)).progress == after_msgs(j, ms).progress,
        m matches Msg::Progress(p, s) ==> after_msgs(j, ms.push(m)).progress == p && after_msgs(
            j,
            ms.push(m),
        ).progress_msg == s@ && after_msgs(j, ms.push(m)).log == after_msgs(j, ms).log,
        m matches Msg::Finished(r) ==> end_of(ms.push(m)) == Some(r),
        !(m is Finished) ==> end_of(ms.push(m)) == end_of(ms),
{
    assert(ms.push(m).drop_last() =~= ms);
}

/// The last report on the update counts, but for a version that is skipped, which
/// counts as none; without a report nothing changes.
pub proof fn law_update_reports(
    now: UpdateState,
    before: Seq<UpdateState>,
    last: UpdateState,
    skipped: Seq<char>,
)
    ensures
        update_after(now, Seq::empty(), skipped) == now,
        (last matches UpdateState::Available(a) && a.version@ == skipped) ==> update_after(
            now,
            before.push(last),
            skipped,
        ) is Idle,
        !(last matches UpdateState::Available(a) && a.version@ == skipped) ==> update_after(
            now,
            before.push(last),
            skipped,
        ) == last,
{
}

/// An update is looked for again once half an hour has passed, and never while one
/// is offered, fetched or being looked for.
pub proof fn law_recheck(state: UpdateState, in_flight: bool, elapsed: u64)
    ensures
        is_recheck_due(state, in_flight, elapsed) ==> elapsed >= 1800 && !in_flight && state is Idle,
        elapsed >= 1800 && !in_flight && state is Idle ==> is_recheck_due(
            state,
            in_flight,
            elapsed,
        ),
{
}

/// The bar on the update is shown whenever there is anything to say.
pub proof fn law_update_bar(s: UpdateState, current: Seq<char>)
    ensures
        bar_says(s, current) is None <==> s is Idle,
{
}

/// An update goes through the engine that the game carries, is blocked by what
/// blocks an install, and is explained where the game could not be read.
pub proof fn law_update_move(s: GameStatus, e: String)
    ensures
        s.problems@.len() > 0 ==> move_for(Some(Ok(s))) == UpdateMove::Blocked,
        s.problems@.len() == 0 && s.opti ==> move_for(Some(Ok(s))) == UpdateMove::Install(
            Engine::Opti,
        ),
        s.problems@.len() == 0 && !s.opti ==> move_for(Some(Ok(s))) == UpdateMove::Install(
            Engine::ReShade,
        ),
        move_for(Some(Err::<GameStatus, String>(e))) == UpdateMove::Explain,
        move_for(None) == UpdateMove::Explain,
{
}

/// A card that is being installed never opens, and an entry of its menu is done
/// whatever else was clicked.
pub proof fn law_card(clicked: bool, busy: bool, update: bool, forget: bool)
    ensures
        forget ==> asked_of(clicked, busy, update, forget) == CardAction::Forget,
        update && !forget ==> asked_of(clicked, busy, update, forget) == CardAction::Update,
        asked_of(clicked, busy, update, forget) == CardAction::Open <==> clicked && !busy && !update
            && !forget,
{
}

/// A card opens its folder; the executable that the store names only where the
/// folder holds no game and that executable is a Windows program.
pub proof fn law_opened(g: GameView, found: bool, hint: Option<Seq<u8>>)
    ensures
        found ==> opened(g, found, hint) == g.dir,
        hint is None || g.exe_hint is None ==> opened(g, found, hint) == g.dir,
        hint is Some && bitness(hint->0) is Err ==> opened(g, found, hint) == g.dir,
        !found && g.exe_hint is Some && hint is Some && bitness(hint->0) is Ok ==> opened(
            g,
            found,
            hint,
        ) == g.exe_hint->0,
{
}

/// A game that this tool installed into stands at the top, every other one under
/// its store; where nothing is known of it, too.
pub proof fn law_section(all: Seq<GameView>, metas: Seq<Option<GameMeta>>, i: int)
    requires
        0 <= i < all.len(),
    ensures
        i < metas.len() && metas[i] is Some && metas[i]->0.installed ==> section_of(all, metas, i)
            == Section::Ours,
        i >= metas.len() || metas[i] is None || !metas[i]->0.installed ==> section_of(all, metas, i)
            == Section::Of(all[i].store),
{
}

/// What was installed stands first, what was added by hand next, then the stores.
pub proof fn law_section_order(a: int, b: int)
    requires
        0 <= a < b < 6,
    ensures
        section_order().len() == 6,
        section_order()[b] != Section::Ours,
        section_order()[b] == Section::Of(Store::Manual) ==> section_order()[a] == Section::Ours,
{
}

proof fn groups_full(
    all: Seq<GameView>,
    metas: Seq<Option<GameMeta>>,
    search: Seq<char>,
    n: int,
    k: int,
)
    requires
        0 <= n <= 6,
        0 <= k < groups_upto(all, metas, search, n).len(),
    ensures
        groups_upto(all, metas, search, n)[k].places.len() > 0,
        exists|s: int|
            0 <= s < n && groups_upto(all, metas, search, n)[k] == #[trigger] group_of(
                all,
                metas,
                search,
                section_order()[s],
            ),
    decreases n,
{
    let before = groups_upto(all, metas, search, n - 1);
    if k < before.len() {
        groups_full(all, metas, search, n - 1, k);
        assert(groups_upto(all, metas, search, n)[k] == before[k]);
    } else {
        assert(groups_upto(all, metas, search, n)[k] == group_of(
            all,
            metas,
            search,
            section_order()[n - 1],
        ));
    }
}

proof fn group_listed(
    all: Seq<GameView>,
    metas: Seq<Option<GameMeta>>,
    search: Seq<char>,
    n: int,
    s: int,
)
    requires
        0 <= s < n <= 6,
        group_of(all, metas, search, section_order()[s]).places.len() > 0,
    ensures
        groups_upto(all, metas, search, n).contains(
            group_of(all, metas, search, section_order()[s]),
        ),
    decreases n,
{
    let before = groups_upto(all, metas, search, n - 1);
    let now = groups_upto(all, metas, search, n);
    let g = group_of(all, metas, search, section_order()[s]);
    if s < n - 1 {
        group_listed(all, metas, search, n - 1, s);
        let k = choose|k: int| 0 <= k < before.len() && before[k] == g;
        assert(now[k] == g);
    } else {
        assert(now[before.len() as int] == g);
    }
}

/// Every game whose title holds what is searched for, case and outer spaces aside,
/// is on the page, in the section that it belongs to; no section is empty.
pub proof fn law_on_the_page(
    all: Seq<GameView>,
    metas: Seq<Option<GameMeta>>,
    search: Seq<char>,
    i: int,
)
    requires
        0 <= i < all.len(),
        occurs(lower(all[i].title), lower(trim(search))),
    ensures
        exists|k: int|
            0 <= k < groups_upto(all, metas, search, 6).len() && (#[trigger] groups_upto(
                all,
                metas,
                search,
                6,
            )[k]).section == section_of(all, metas, i) && groups_upto(
                all,
                metas,
                search,
                6,
            )[k].places.contains(i),
        forall|k: int|
            0 <= k < groups_upto(all, metas, search, 6).len() ==> (#[trigger] groups_upto(
                all,
                metas,
                search,
                6,
            )[k]).places.len() > 0,
{
    crate::shelf::law_one_section(all, metas, search, i);
    let o = section_order();
    let sec = section_of(all, metas, i);
    let s = choose|s: int| 0 <= s < o.len() && o[s] == sec;
    let g = group_of(all, metas, search, sec);
    assert(section_places(all, metas, search, sec, all.len() as int).contains(i));
    assert(g.places.len() > 0);
    group_listed(all, metas, search, 6, s);
    let v = groups_upto(all, metas, search, 6);
    let k = choose|k: int| 0 <= k < v.len() && v[k] == g;
    assert(v[k].section == sec);
    assert forall|k: int| 0 <= k < v.len() implies (#[trigger] v[k]).places.len() > 0 by {
        groups_full(all, metas, search, 6, k);
    }
}

/// The counts of a section grow by one with each game that is ready, or out of
/// date, and with no other.
pub proof fn law_counts(metas: Seq<Option<GameMeta>>, places: Seq<int>, i: int)
    ensures
        ready_count(metas, places.push(i)) == ready_count(metas, places) + (if 0 <= i < metas.len()
            && metas[i] is Some && metas[i]->0.ready {
            1int
        } else {
            0
        }),
        stale_count(metas, places.push(i)) == stale_count(metas, places) + (if 0 <= i < metas.len()
            && metas[i] is Some && metas[i]->0.stale@.len() > 0 {
            1int
        } else {
            0
        }),
        ready_count(metas, Seq::empty()) == 0 && stale_count(metas, Seq::empty()) == 0,
{
    assert(places.push(i).drop_last() =~= places);
}

/// Each game that is known to run on DirectX 12 is counted, and no other.
pub proof fn law_dx12_count(metas: Seq<Option<GameMeta>>, m: Option<GameMeta>)
    ensures
        dx12_count(metas.push(m)) == dx12_count(metas) + (if m is Some && starts(
            m->0.api@,
            "DirectX 12"@,
        ) {
            1int
        } else {
            0
        }),
        dx12_count(Seq::empty()) == 0,
{
    assert(metas.push(m).drop_last() =~= metas);
}

/// Forgetting a folder drops what was added by hand there, and keeps what a store
/// lists and what was added elsewhere.
pub proof fn law_forgotten(v: Seq<GameView>, dir: Seq<char>, g: GameView)
    ensures
        without_added(v, dir).contains(g) <==> v.contains(g) && (g.store != Store::Manual
            || !same_path(g.dir, dir)),
{
    let keep = |g: GameView| !(g.store == Store::Manual && same_path(g.dir, dir));
    let w = v.filter(keep);
    if w.contains(g) {
        v.lemma_filter_contains_rev(keep, g);
        let k = choose|k: int| 0 <= k < w.len() && w[k] == g;
        v.lemma_filter_pred(keep, k);
    }
    if v.contains(g) && keep(g) {
        let i = choose|i: int| 0 <= i < v.len() && v[i] == g;
        v.lemma_filter_contains(keep, i);
    }
}

/// A store is told by its own name.
pub proof fn law_store_labels(s: Store)
    ensures
        s == Store::Steam ==> Section::Of(s).says() == "Steam"@,
        s == Store::Epic ==> Section::Of(s).says() == "Epic Games"@,
        s == Store::Gog ==> Section::Of(s).says() == "GOG"@,
        s == Store::Xbox ==> Section::Of(s).says() == "Xbox"@,
        s == Store::Manual ==> Section::Of(s).says() == "Added by you"@,
        Section::Ours.says() == "Installed by this tool"@,
{
}

/// A choice of the path is told as it was made; without one, what was detected is.
pub proof fn law_path_choice(choice: Option<Mode>, detected: Mode)
    ensures
        choice == Some(Mode::Native) ==> path_says(choice, detected) == "Force native DLSS"@,
        choice == Some(Mode::Feeder) ==> path_says(choice, detected) == "Force no-DLSS (Feeder)"@,
        choice is None && detected == Mode::Native ==> path_says(choice, detected)
            == "Auto: native DLSS · add-on hooks the game"@,
        choice is None && detected == Mode::Feeder ==> path_says(choice, detected)
            == "Auto: no DLSS · Feeder path"@,
{
}

/// An executable is shown by its path below what was typed, else by its name.
pub proof fn law_shown_name(base: Seq<char>, exe: Seq<char>)
    ensures
        below(base, exe) is Some ==> shown_name(base, exe) == below(base, exe)->0,
        below(base, exe) is None && name_of(exe) is Some ==> shown_name(base, exe) == name_of(
            exe,
        )->0,
{
}

/// The facts of a game are its bits, its API and its card, where that is known.
pub proof fn law_game_facts(st: &GameStatus)
    ensures
        st.gpu is None ==> game_facts(st) == dec(st.bitness as nat) + "-bit · "@ + st.api.says(),
        st.gpu is Some ==> game_facts(st) == dec(st.bitness as nat) + "-bit · "@ + st.api.says() + (
        " · "@ + (st.gpu->0).0.name@ + " ("@ + (st.gpu->0).1.says() + ")"@),
{
}

/// What is out of date of a game is named on its card, below the game and its
/// folder; nothing else is.
pub proof fn law_card_text(g: GameView, m: GameMeta)
    ensures
        starts(card_says(g, Some(m)), g.title + "\n"@ + g.dir),
        m.stale@.len() == 0 ==> card_says(g, Some(m)) == g.title + "\n"@ + g.dir,
        m.stale@.len() > 0 ==> ends(card_says(g, Some(m)), join(texts(m.stale@), "\n  "@)),
        card_says(g, None) == g.title + "\n"@ + g.dir,
{
    let head = g.title + "\n"@ + g.dir;
    let t = card_says(g, Some(m));
    assert(t.subrange(0, head.len() as int) =~= head);
    assert(head + Seq::<char>::empty() =~= head);
    if m.stale@.len() > 0 {
        let list = join(texts(m.stale@), "\n  "@);
        assert(t.subrange(t.len() - list.len(), t.len() as int) =~= list);
    }
}

} // verus!
