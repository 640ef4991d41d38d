//! What a diagnosis says, by what the logs hold.
use vstd::prelude::*;

use crate::api::Api;
use crate::chars::is_digit;
use crate::diagnose::{
    addon_failures, addon_part, bridge_part, code_meaning, compile_failures, compile_part,
    compiler_part, diagnosis, doubtful, error_code, feed_part, feed_stop_part, good, host_exe,
    host_part, hybrid_text, is_older, load_lines, model_part, model_runs_part, ngx_part,
    ngx_refusals, ngx_text, old_feeder_part, older_from, other_exe_part, provider_part, redist_text,
    reshade_log, reshade_part, silent, stop_part, toggle_part, version_after, version_numbers, wrong, Level, Logs,
    Note,
};
use crate::game::{GameStatus, Mode};
use crate::gpupref::{cards, is_hybrid, prefers};
use crate::message_marks::{bad_marks, fine_marks, heads, same_heads, same_tails, tails, warn_marks};
use crate::messages::{
    BRIDGE_RUNS, BRIDGE_STOPPED, COMPILER_1, COMPILER_2, CRASHED, DELIVERED, DLSS_OFF, ENTRY_FAILED,
    FEED_READY, FEED_STOPPED, HOST_READY, HYBRID_1, HYBRID_2, HYBRID_3, HYBRID_SET, INVALID_REDIST,
    LOADED, NEEDS_BRIDGE, NGX_1, NGX_2, NGX_3, NGX_BROKEN, NGX_FINE, NOT_COMPILING, NOT_REGISTERED,
    NO_DLSS, NO_FEED, NO_HOST_LOG, NO_LOG, NO_PROVIDER, NO_REDIST, OLD_COMPILER, OLD_FEEDER_1,
    OLD_FEEDER_2, OLD_FEEDER_3, OTHER_EXE_1, OTHER_EXE_2, OTHER_EXE_3, OTHER_EXE_4, RAN, REDIST_1,
    REDIST_2, REDIST_3, REFUSED, REFUSES_UNSIGNED, REGISTERED, SAW_DLSS, TOGGLED_OFF, TOGGLED_ON,
    ZERO_VECTORS,
};
use crate::numbers::{dec, parsed_u64};
use crate::paths::name_of;
use crate::strs::{
    after_last, at, ends, find_from, find_from_first, first_from, first_line, holding, join,
    last_before, last_line, lines, occurs, pieces, replace_char, rfind_from, same_fold, starts,
    texts, trim, words,
};

verus! {

/// The findings tell `text`, at that level.
pub open spec fn tells(st: &GameStatus, l: &Logs, level: Level, text: Seq<char>) -> bool {
    diagnosis(st, l).contains((level, text))
}

/// `rs` is what ReShade left behind: its first log, or its second where there is
/// no first.
pub open spec fn left_behind(l: &Logs, rs: Seq<char>) -> bool {
    ||| l.reshade matches Some(s) && s@ == rs
    ||| l.reshade is None && (l.reshade2 matches Some(s) && s@ == rs)
}

/// One line of the log holds all of the three texts.
pub open spec fn a_line_holds(
    log: Seq<char>,
    a: Seq<char>,
    b: Seq<char>,
    c: Seq<char>,
) -> bool {
    exists|i: int|
        0 <= i < lines(log).len() && occurs(#[trigger] lines(log)[i], a) && occurs(lines(log)[i], b)
            && occurs(lines(log)[i], c)
}

broadcast proof fn has_both(a: Seq<Note>, b: Seq<Note>, x: Note)
    ensures
        #[trigger] (a + b).contains(x) <==> a.contains(x) || b.contains(x),
{
    let s = a + b;
    if a.contains(x) {
        let i = choose|i: int| 0 <= i < a.len() && a[i] == x;
        assert(s[i] == x);
    }
    if b.contains(x) {
        let i = choose|i: int| 0 <= i < b.len() && b[i] == x;
        assert(s[a.len() + i] == x);
    }
    if s.contains(x) {
        let i = choose|i: int| 0 <= i < s.len() && s[i] == x;
        if i < a.len() {
            assert(a[i] == x);
        } else {
            assert(b[i - a.len()] == x);
        }
    }
}

broadcast proof fn has_good(t: Seq<char>, x: Note)
    ensures
        #[trigger] good(t).contains(x) <==> x == (Level::Fine, t),
{
    assert(good(t)[0] == (Level::Fine, t));
}

broadcast proof fn has_doubtful(t: Seq<char>, x: Note)
    ensures
        #[trigger] doubtful(t).contains(x) <==> x == (Level::Warn, t),
{
    assert(doubtful(t)[0] == (Level::Warn, t));
}

broadcast proof fn has_wrong(t: Seq<char>, x: Note)
    ensures
        #[trigger] wrong(t).contains(x) <==> x == (Level::Bad, t),
{
    assert(wrong(t)[0] == (Level::Bad, t));
}

broadcast proof fn has_nothing(x: Note)
    ensures
        !(#[trigger] silent().contains(x)),
{
}

broadcast group group_has {
    has_both,
    has_good,
    has_doubtful,
    has_wrong,
    has_nothing,
}

/// The first line that `p` holds of is one of the lines, and none before it is
/// such a line.
proof fn first_of(ls: Seq<Seq<char>>, p: spec_fn(Seq<char>) -> bool, i: int)
    requires
        0 <= i,
    ensures
        match first_from(ls, p, i) {
            Some(x) => exists|k: int|
                i <= k < ls.len() && x == #[trigger] ls[k] && p(x) && forall|j: int|
                    i <= j < k ==> !p(#[trigger] ls[j]),
            None => forall|j: int| i <= j < ls.len() ==> !p(#[trigger] ls[j]),
        },
    decreases ls.len() - i,
{
    if i < ls.len() && !p(ls[i]) {
        first_of(ls, p, i + 1);
        if let Some(x) = first_from(ls, p, i + 1) {
            let k = choose|k: int|
                i + 1 <= k < ls.len() && x == #[trigger] ls[k] && p(x) && forall|j: int|
                    i + 1 <= j < k ==> !p(#[trigger] ls[j]);
            assert(i <= k < ls.len() && x == ls[k] && p(x));
            assert forall|j: int| i <= j < k implies !p(#[trigger] ls[j]) by {}
        }
    } else if i < ls.len() {
        assert(ls[i] == ls[i]);
    }
}

/// The last of the first `n` lines that `p` holds of is one of them, and none of
/// them after it is such a line.
proof fn last_of(ls: Seq<Seq<char>>, p: spec_fn(Seq<char>) -> bool, n: int)
    requires
        0 <= n <= ls.len(),
    ensures
        match last_before(ls, p, n) {
            Some(x) => exists|k: int|
                0 <= k < n && x == #[trigger] ls[k] && p(x) && forall|j: int|
                    k < j < n ==> !p(#[trigger] ls[j]),
            None => forall|j: int| 0 <= j < n ==> !p(#[trigger] ls[j]),
        },
    decreases n,
{
    if n > 0 && !p(ls[n - 1]) {
        last_of(ls, p, n - 1);
        if let Some(x) = last_before(ls, p, n - 1) {
            let k = choose|k: int|
                0 <= k < n - 1 && x == #[trigger] ls[k] && p(x) && forall|j: int|
                    k < j < n - 1 ==> !p(#[trigger] ls[j]);
            assert(0 <= k < n && x == ls[k] && p(x));
            assert forall|j: int| k < j < n implies !p(#[trigger] ls[j]) by {}
        }
    } else if n > 0 {
        assert(ls[n - 1] == ls[n - 1]);
    }
}

/// A finding of a diagnosis comes from one of its sources.
proof fn sources(st: &GameStatus, l: &Logs, rs: Seq<char>, x: Note)
    requires
        left_behind(l, rs),
    ensures
        diagnosis(st, l).contains(x) <==> {
            ||| compiler_part(l).contains(x)
            ||| model_part(l).contains(x)
            ||| occurs(rs, "Initializing crosire's ReShade"@) && x == (Level::Fine, LOADED@)
            ||| addon_part(rs).contains(x)
            ||| toggle_part(rs).contains(x)
            ||| model_runs_part(st, rs).contains(x)
            ||| compile_part(rs).contains(x)
            ||| other_exe_part(st.exe@, rs).contains(x)
            ||| bridge_part(l).contains(x)
            ||| feed_part(st, l).contains(x)
        },
{
    broadcast use group_has;

    assert(reshade_log(l) is Some && reshade_log(l)->0@ == rs);
}

/// How the texts begin or end into which a log is quoted.
#[verifier::rlimit(40)]
proof fn quoting(st: &GameStatus, l: &Logs, rs: Seq<char>, x: Note)
    ensures
        addon_part(rs).contains(x) ==> x == (Level::Fine, REGISTERED@) || x == (
            Level::Bad,
            NOT_REGISTERED@,
        ) || (x.0 == Level::Bad && starts(x.1, REFUSED@)),
        compile_part(rs).contains(x) ==> x.0 == Level::Bad && ends(x.1, OLD_COMPILER@),
        other_exe_part(st.exe@, rs).contains(x) ==> x.0 == Level::Warn && starts(
            x.1,
            OTHER_EXE_1@,
        ),
        bridge_part(l).contains(x) ==> x == (Level::Fine, BRIDGE_RUNS@) || (x.0 == Level::Bad && (
        starts(x.1, BRIDGE_STOPPED@) || ends(x.1, REDIST_3@) || ends(x.1, NO_REDIST@))),
        compiler_part(l).contains(x) ==> x.0 == Level::Warn && starts(x.1, COMPILER_1@),
        model_part(l).contains(x) ==> x.0 == Level::Fine && starts(x.1, "DLSS 5 model "@),
{
    broadcast use group_has;

    if compile_part(rs).contains(x) {
        let t = x.1;
        assert(t.subrange(t.len() - OLD_COMPILER@.len(), t.len() as int) =~= OLD_COMPILER@);
    }
    if addon_part(rs).contains(x) {
        let t = x.1;
        if x.0 == Level::Bad && t != NOT_REGISTERED@ {
            assert(t.subrange(0, REFUSED@.len() as int) =~= REFUSED@);
        }
    }
    if other_exe_part(st.exe@, rs).contains(x) {
        assert(x.1.subrange(0, OTHER_EXE_1@.len() as int) =~= OTHER_EXE_1@);
    }
    if bridge_part(l).contains(x) {
        let b = l.bridge->0@;
        let t = x.1;
        if stop_part(b).contains(x) {
            assert(t.subrange(0, BRIDGE_STOPPED@.len() as int) =~= BRIDGE_STOPPED@);
        } else if x.0 == Level::Bad {
            match l.redist {
                Some(_) => {
                    assert(t.subrange(t.len() - REDIST_3@.len(), t.len() as int) =~= REDIST_3@);
                },
                None => {
                    assert(t.subrange(t.len() - NO_REDIST@.len(), t.len() as int) =~= NO_REDIST@);
                },
            }
        }
    }
    if compiler_part(l).contains(x) {
        assert(x.1.subrange(0, COMPILER_1@.len() as int) =~= COMPILER_1@);
    }
    if model_part(l).contains(x) {
        assert(x.1.subrange(0, "DLSS 5 model "@.len() as int) =~= "DLSS 5 model "@);
    }
}

/// A text that begins and ends as none of those does into which a log is quoted
/// comes from elsewhere.
proof fn apart(st: &GameStatus, l: &Logs, rs: Seq<char>, x: Note)
    requires
        x.0 == Level::Bad,
        heads(x.1) != heads(REFUSED@),
        heads(x.1) != heads(BRIDGE_STOPPED@),
        tails(x.1) != tails(OLD_COMPILER@),
        tails(x.1) != tails(REDIST_3@),
        tails(x.1) != tails(NO_REDIST@),
    ensures
        !compiler_part(l).contains(x),
        !model_part(l).contains(x),
        addon_part(rs).contains(x) ==> x.1 == NOT_REGISTERED@,
        !compile_part(rs).contains(x),
        !other_exe_part(st.exe@, rs).contains(x),
        !bridge_part(l).contains(x),
{
    bad_marks();
    quoting(st, l, rs, x);
    if starts(x.1, REFUSED@) {
        same_heads(x.1, REFUSED@);
    }
    if starts(x.1, BRIDGE_STOPPED@) {
        same_heads(x.1, BRIDGE_STOPPED@);
    }
    if ends(x.1, OLD_COMPILER@) {
        same_tails(x.1, OLD_COMPILER@);
    }
    if ends(x.1, REDIST_3@) {
        same_tails(x.1, REDIST_3@);
    }
    if ends(x.1, NO_REDIST@) {
        same_tails(x.1, NO_REDIST@);
    }
}

/// Where the findings on the Feeder come from.
proof fn feed_sources(st: &GameStatus, l: &Logs, x: Note)
    ensures
        st.mode != Mode::Feeder ==> !feed_part(st, l).contains(x),
        st.mode == Mode::Feeder && l.feed is None ==> (feed_part(st, l).contains(x) <==> x == (
            Level::Bad,
            NO_FEED@,
        )),
        st.mode == Mode::Feeder && l.feed is Some ==> (feed_part(st, l).contains(x) <==> {
            let fd = l.feed->0@;
            ||| occurs(fd, "feature ready"@) && x == (Level::Fine, FEED_READY@)
            ||| occurs(fd, "frame"@) && occurs(fd, "delivered"@) && x == (Level::Fine, DELIVERED@)
            ||| occurs(fd, "technique MISSING"@) && !occurs(fd, "technique found"@) && x == (
                Level::Bad,
                NOT_COMPILING@,
            )
            ||| provider_part(fd).contains(x)
            ||| ngx_part(fd, l.exe_preference, l).contains(x)
            ||| host_part(st, l).contains(x)
            ||| old_feeder_part(fd).contains(x)
            ||| occurs(fd, "MV probe"@) && occurs(fd, "0% non-zero"@) && x == (
                Level::Bad,
                ZERO_VECTORS@,
            )
            ||| occurs(fd, "DLSS super sampling is not available"@) && x == (Level::Bad, NO_DLSS@)
            ||| feed_stop_part(fd).contains(x)
            ||| occurs(fd, "CRASH RECORDED"@) && x == (Level::Warn, CRASHED@)
        }),
{
    broadcast use group_has;

}

/// How the texts on the Feeder begin into which a log is quoted.
proof fn feed_quoting(
    st: &GameStatus,
    l: &Logs,
    fd: Seq<char>,
    preference: Option<String>,
    x: Note,
)
    ensures
        ngx_part(fd, preference, l).contains(x) ==> x.0 == Level::Bad && (starts(x.1, HYBRID_1@)
            || starts(x.1, NGX_1@)),
        old_feeder_part(fd).contains(x) ==> x.0 == Level::Warn && starts(x.1, OLD_FEEDER_1@),
        feed_stop_part(fd).contains(x) ==> x.0 == Level::Bad && starts(x.1, FEED_STOPPED@),
{
    broadcast use group_has;

    if ngx_part(fd, preference, l).contains(x) {
        let names = cards(texts(l.adapters@));
        let set = match preference {
            Some(p) => prefers(p@),
            None => false,
        };
        let line = first_line(fd, ngx_refusals())->0;
        if x.1 == ngx_text(line, l) {
            assert(x.1.subrange(0, NGX_1@.len() as int) =~= NGX_1@);
        } else {
            assert(x.1 == hybrid_text(names, set));
            assert(x.1.subrange(0, HYBRID_1@.len() as int) =~= HYBRID_1@);
        }
    }
    if old_feeder_part(fd).contains(x) {
        assert(x.1.subrange(0, OLD_FEEDER_1@.len() as int) =~= OLD_FEEDER_1@);
    }
    if feed_stop_part(fd).contains(x) {
        assert(x.1.subrange(0, FEED_STOPPED@.len() as int) =~= FEED_STOPPED@);
    }
}

/// A text that begins as none of those on the Feeder does into which a log is
/// quoted comes from elsewhere.
proof fn feed_apart(st: &GameStatus, l: &Logs, fd: Seq<char>, preference: Option<String>, x: Note)
    requires
        x.0 == Level::Bad ==> {
            &&& heads(x.1) != heads(HYBRID_1@)
            &&& heads(x.1) != heads(NGX_1@)
            &&& heads(x.1) != heads(FEED_STOPPED@)
        },
        x.0 == Level::Warn ==> heads(x.1) != heads(OLD_FEEDER_1@),
    ensures
        !ngx_part(fd, preference, l).contains(x),
        !old_feeder_part(fd).contains(x),
        !feed_stop_part(fd).contains(x),
{
    bad_marks();
    warn_marks();
    feed_quoting(st, l, fd, preference, x);
    if starts(x.1, HYBRID_1@) {
        same_heads(x.1, HYBRID_1@);
    }
    if starts(x.1, NGX_1@) {
        same_heads(x.1, NGX_1@);
    }
    if starts(x.1, FEED_STOPPED@) {
        same_heads(x.1, FEED_STOPPED@);
    }
    if starts(x.1, OLD_FEEDER_1@) {
        same_heads(x.1, OLD_FEEDER_1@);
    }
}

/// Where a finding comes from whose text is none into which a log is quoted.
#[verifier::rlimit(40)]
proof fn plain_sources(st: &GameStatus, l: &Logs, rs: Seq<char>, x: Note)
    requires
        left_behind(l, rs),
        x.0 == Level::Bad ==> {
            &&& heads(x.1) != heads(REFUSED@)
            &&& heads(x.1) != heads(BRIDGE_STOPPED@)
            &&& tails(x.1) != tails(OLD_COMPILER@)
            &&& tails(x.1) != tails(REDIST_3@)
            &&& tails(x.1) != tails(NO_REDIST@)
            &&& heads(x.1) != heads(HYBRID_1@)
            &&& heads(x.1) != heads(NGX_1@)
            &&& heads(x.1) != heads(FEED_STOPPED@)
        },
        x.0 == Level::Warn ==> {
            &&& heads(x.1) != heads(OLD_FEEDER_1@)
            &&& heads(x.1) != heads(COMPILER_1@)
            &&& heads(x.1) != heads(OTHER_EXE_1@)
        },
        x.0 == Level::Fine ==> heads(x.1) != ('D', 'S', ' ', '5', ' ', 'o'),
    ensures
        diagnosis(st, l).contains(x) <==> {
            let feeds = st.mode == Mode::Feeder && l.feed is Some;
            let fd = l.feed->0@;
            ||| occurs(rs, "Initializing crosire's ReShade"@) && x == (Level::Fine, LOADED@)
            ||| !a_line_holds(rs, "Failed to load add-on"@, "renodx-dlss5"@, ""@) && x == (if occurs(
                rs,
                "DLSS 5 Neural Rendering"@,
            ) {
                (Level::Fine, REGISTERED@)
            } else {
                (Level::Bad, NOT_REGISTERED@)
            })
            ||| toggle_part(rs).contains(x)
            ||| model_runs_part(st, rs).contains(x)
            ||| bridge_part(l).contains(x) && x == (Level::Fine, BRIDGE_RUNS@)
            ||| st.mode == Mode::Feeder && l.feed is None && x == (Level::Bad, NO_FEED@)
            ||| feeds && occurs(fd, "feature ready"@) && x == (Level::Fine, FEED_READY@)
            ||| feeds && occurs(fd, "frame"@) && occurs(fd, "delivered"@) && x == (
                Level::Fine,
                DELIVERED@,
            )
            ||| feeds && occurs(fd, "technique MISSING"@) && !occurs(fd, "technique found"@) && x
                == (Level::Bad, NOT_COMPILING@)
            ||| feeds && provider_part(fd).contains(x)
            ||| feeds && l.host is Some && occurs(l.host->0@, "feature ready"@) && x == (
                Level::Fine,
                HOST_READY@,
            )
            ||| feeds && l.host is None && st.bitness == 32 && x == (Level::Warn, NO_HOST_LOG@)
            ||| feeds && occurs(fd, "MV probe"@) && occurs(fd, "0% non-zero"@) && x == (
                Level::Bad,
                ZERO_VECTORS@,
            )
            ||| feeds && occurs(fd, "DLSS super sampling is not available"@) && x == (
                Level::Bad,
                NO_DLSS@,
            )
            ||| feeds && occurs(fd, "CRASH RECORDED"@) && x == (Level::Warn, CRASHED@)
        },
{
    broadcast use group_has;

    sources(st, l, rs, x);
    feed_sources(st, l, x);
    feed_apart(st, l, l.feed->0@, l.exe_preference, x);
    feed_apart(st, l, l.host->0@, l.host_preference, x);
    quoting(st, l, rs, x);
    bad_marks();
    warn_marks();
    if x.0 == Level::Bad {
        apart(st, l, rs, x);
    }
    if starts(x.1, COMPILER_1@) {
        same_heads(x.1, COMPILER_1@);
    }
    if starts(x.1, OTHER_EXE_1@) {
        same_heads(x.1, OTHER_EXE_1@);
    }
    if starts(x.1, "DLSS 5 model "@) {
        reveal_strlit("DLSS 5 model ");
        same_heads(x.1, "DLSS 5 model "@);
    }
    addon_lines(rs);
}

/// The add-on was refused where a line says so.
proof fn addon_lines(rs: Seq<char>)
    ensures
        first_line(rs, addon_failures()) is Some <==> a_line_holds(
            rs,
            "Failed to load add-on"@,
            "renodx-dlss5"@,
            ""@,
        ),
{
    first_of(lines(rs), addon_failures(), 0);
    reveal_strlit("");
    assert forall|s: Seq<char>| #[trigger] occurs(s, ""@) by {
        assert(s.subrange(0, 0) =~= ""@);
        assert(at(s, ""@, 0));
    }
    if let Some(x) = first_line(rs, addon_failures()) {
        let k = choose|k: int|
            0 <= k < lines(rs).len() && x == #[trigger] lines(rs)[k] && addon_failures()(x);
        assert(occurs(lines(rs)[k], "Failed to load add-on"@));
    }
}

/// The model ran where the log shows an evaluation. Where it did not, a game
/// whose DLSS the add-on saw is asked to switch it on; otherwise a native game on
/// Direct3D 11 is sent for the bridge exactly where that is not installed, and
/// every other native game is told that its own DLSS never ran. Nothing of this
/// is said of a game that has none.
#[verifier::rlimit(40)]
pub proof fn law_model_runs(st: &GameStatus, l: &Logs, rs: Seq<char>)
    requires
        left_behind(l, rs),
    ensures
        ({
            let ran = occurs(rs, "inline feature 18 evaluation succeeded"@);
            let seen = occurs(rs, "feature=1 (DLSS/DLAA)"@);
            let native = st.mode == Mode::Native;
            &&& tells(st, l, Level::Fine, RAN@) <==> ran
            &&& tells(st, l, Level::Warn, SAW_DLSS@) <==> seen && !ran
            &&& tells(st, l, Level::Bad, NEEDS_BRIDGE@) <==> native && st.api == Api::Dx11
                && !st.bridge && !ran && !seen
            &&& tells(st, l, Level::Bad, DLSS_OFF@) <==> native && (st.api != Api::Dx11
                || st.bridge) && !ran && !seen
        }),
{
    broadcast use group_has;

    bad_marks();
    fine_marks();
    warn_marks();
    plain_sources(st, l, rs, (Level::Fine, RAN@));
    plain_sources(st, l, rs, (Level::Warn, SAW_DLSS@));
    plain_sources(st, l, rs, (Level::Bad, NEEDS_BRIDGE@));
    plain_sources(st, l, rs, (Level::Bad, DLSS_OFF@));
}

/// A native game on Direct3D 11 whose calls nobody saw is sent for the bridge
/// exactly where the bridge is not installed; where it is, and with every other
/// API, the game's own DLSS is what is missing.
pub proof fn law_needs_bridge(st: &GameStatus, l: &Logs, rs: Seq<char>)
    requires
        left_behind(l, rs),
        st.mode == Mode::Native,
        !occurs(rs, "inline feature 18 evaluation succeeded"@),
        !occurs(rs, "feature=1 (DLSS/DLAA)"@),
    ensures
        tells(st, l, Level::Bad, NEEDS_BRIDGE@) <==> st.api == Api::Dx11 && !st.bridge,
        tells(st, l, Level::Bad, DLSS_OFF@) <==> st.api != Api::Dx11 || st.bridge,
{
    law_model_runs(st, l, rs);
}

/// ReShade was loaded where its log says so; the add-on registered where it does
/// and no line says that it was refused; what the log holds of the key decides
/// what is said of it, and switched off counts.
#[verifier::rlimit(40)]
pub proof fn law_reshade_log(st: &GameStatus, l: &Logs, rs: Seq<char>)
    requires
        left_behind(l, rs),
    ensures
        ({
            let refused = a_line_holds(rs, "Failed to load add-on"@, "renodx-dlss5"@, ""@);
            let there = occurs(rs, "DLSS 5 Neural Rendering"@);
            let off = occurs(rs, "NR toggled OFF"@);
            &&& tells(st, l, Level::Fine, LOADED@) <==> occurs(rs, "Initializing crosire's ReShade"@)
            &&& tells(st, l, Level::Fine, REGISTERED@) <==> there && !refused
            &&& tells(st, l, Level::Bad, NOT_REGISTERED@) <==> !there && !refused
            &&& tells(st, l, Level::Warn, TOGGLED_OFF@) <==> off
            &&& tells(st, l, Level::Fine, TOGGLED_ON@) <==> occurs(rs, "NR toggled ON"@) && !off
        }),
{
    broadcast use group_has;

    bad_marks();
    fine_marks();
    warn_marks();
    plain_sources(st, l, rs, (Level::Fine, LOADED@));
    plain_sources(st, l, rs, (Level::Fine, REGISTERED@));
    plain_sources(st, l, rs, (Level::Bad, NOT_REGISTERED@));
    plain_sources(st, l, rs, (Level::Warn, TOGGLED_OFF@));
    plain_sources(st, l, rs, (Level::Fine, TOGGLED_ON@));
}

/// What the Feeder's log holds decides what is said of it; the provider of the
/// motion vectors is missing where the last line on the effects says so. A 32-bit
/// game without a log of its helper is told that the helper has not started.
/// Nothing of this is said of a native game.
#[verifier::rlimit(40)]
pub proof fn law_feed_log(st: &GameStatus, l: &Logs, rs: Seq<char>)
    requires
        left_behind(l, rs),
    ensures
        ({
            let feeds = st.mode == Mode::Feeder && l.feed is Some;
            let fd = l.feed->0@;
            &&& tells(st, l, Level::Bad, NO_FEED@) <==> st.mode == Mode::Feeder && l.feed is None
            &&& tells(st, l, Level::Fine, FEED_READY@) <==> feeds && occurs(fd, "feature ready"@)
            &&& tells(st, l, Level::Fine, DELIVERED@) <==> feeds && occurs(fd, "frame"@) && occurs(
                fd,
                "delivered"@,
            )
            &&& tells(st, l, Level::Bad, NOT_COMPILING@) <==> feeds && occurs(
                fd,
                "technique MISSING"@,
            ) && !occurs(fd, "technique found"@)
            &&& tells(st, l, Level::Bad, NO_PROVIDER@) <==> feeds && exists|k: int|
                0 <= k < lines(fd).len() && occurs(#[trigger] lines(fd)[k], "[feed] effects:"@)
                    && occurs(lines(fd)[k], "-> none (not installed)"@) && forall|j: int|
                    k < j < lines(fd).len() ==> !occurs(
                        #[trigger] lines(fd)[j],
                        "[feed] effects:"@,
                    )
            &&& tells(st, l, Level::Bad, ZERO_VECTORS@) <==> feeds && occurs(fd, "MV probe"@)
                && occurs(fd, "0% non-zero"@)
            &&& tells(st, l, Level::Bad, NO_DLSS@) <==> feeds && occurs(
                fd,
                "DLSS super sampling is not available"@,
            )
            &&& tells(st, l, Level::Warn, CRASHED@) <==> feeds && occurs(fd, "CRASH RECORDED"@)
            &&& tells(st, l, Level::Fine, HOST_READY@) <==> feeds && l.host is Some && occurs(
                l.host->0@,
                "feature ready"@,
            )
            &&& tells(st, l, Level::Warn, NO_HOST_LOG@) <==> feeds && l.host is None && st.bitness
                == 32
        }),
{
    broadcast use group_has;

    bad_marks();
    fine_marks();
    warn_marks();
    let fd = l.feed->0@;
    plain_sources(st, l, rs, (Level::Bad, NO_FEED@));
    plain_sources(st, l, rs, (Level::Fine, FEED_READY@));
    plain_sources(st, l, rs, (Level::Fine, DELIVERED@));
    plain_sources(st, l, rs, (Level::Bad, NOT_COMPILING@));
    plain_sources(st, l, rs, (Level::Bad, NO_PROVIDER@));
    plain_sources(st, l, rs, (Level::Bad, ZERO_VECTORS@));
    plain_sources(st, l, rs, (Level::Bad, NO_DLSS@));
    plain_sources(st, l, rs, (Level::Warn, CRASHED@));
    plain_sources(st, l, rs, (Level::Fine, HOST_READY@));
    plain_sources(st, l, rs, (Level::Warn, NO_HOST_LOG@));
    provider_lines(fd);
}

proof fn provider_lines(fd: Seq<char>)
    ensures
        provider_part(fd).contains((Level::Bad, NO_PROVIDER@)) <==> exists|k: int|
            0 <= k < lines(fd).len() && occurs(#[trigger] lines(fd)[k], "[feed] effects:"@)
                && occurs(lines(fd)[k], "-> none (not installed)"@) && forall|j: int|
                k < j < lines(fd).len() ==> !occurs(#[trigger] lines(fd)[j], "[feed] effects:"@),
{
    broadcast use group_has;

    let p = holding("[feed] effects:"@);
    let ls = lines(fd);
    last_of(ls, p, ls.len() as int);
    if let Some(x) = last_line(fd, p) {
        let k = choose|k: int|
            0 <= k < ls.len() && x == #[trigger] ls[k] && p(x) && forall|j: int|
                k < j < ls.len() ==> !p(#[trigger] ls[j]);
        assert forall|j: int| k < j < ls.len() implies !occurs(
            #[trigger] ls[j],
            "[feed] effects:"@,
        ) by {
            assert(!p(ls[j]));
        }
        assert(occurs(ls[k], "[feed] effects:"@));
        if exists|m: int|
            0 <= m < ls.len() && occurs(#[trigger] ls[m], "[feed] effects:"@) && occurs(
                ls[m],
                "-> none (not installed)"@,
            ) && forall|j: int|
                m < j < ls.len() ==> !occurs(#[trigger] ls[j], "[feed] effects:"@) {
            let m = choose|m: int|
                0 <= m < ls.len() && occurs(#[trigger] ls[m], "[feed] effects:"@) && occurs(
                    ls[m],
                    "-> none (not installed)"@,
                ) && forall|j: int|
                    m < j < ls.len() ==> !occurs(#[trigger] ls[j], "[feed] effects:"@);
            assert(m == k);
        }
    } else {
        assert forall|j: int| 0 <= j < ls.len() implies !occurs(
            #[trigger] ls[j],
            "[feed] effects:"@,
        ) by {
            assert(!p(ls[j]));
        }
    }
}

/// Without any log of ReShade that is the last thing said, and the only bad one;
/// with one it is not said.
pub proof fn law_no_log(st: &GameStatus, l: &Logs)
    ensures
        tells(st, l, Level::Bad, NO_LOG@) <==> l.reshade is None && l.reshade2 is None,
        l.reshade is None && l.reshade2 is None ==> {
            &&& diagnosis(st, l).last() == (Level::Bad, NO_LOG@)
            &&& diagnosis(st, l).len() <= 3
            &&& forall|t: Seq<char>|
                tells(st, l, Level::Bad, t) ==> t == NO_LOG@
        },
{
    broadcast use group_has;

    bad_marks();
    fine_marks();
    warn_marks();
    match reshade_log(l) {
        Some(rs) => {
            plain_sources(st, l, rs@, (Level::Bad, NO_LOG@));
            provider_lines(l.feed->0@);
        },
        None => {
            let d = diagnosis(st, l);
            assert(d.last() == (Level::Bad, NO_LOG@));
            assert forall|t: Seq<char>| tells(st, l, Level::Bad, t) implies t == NO_LOG@ by {
                quoting(st, l, Seq::empty(), (Level::Bad, t));
            }
            assert(compiler_part(l).len() <= 1);
            assert(model_part(l).len() <= 1);
            assert(d.contains((Level::Bad, NO_LOG@)));
        },
    }
}

/// The bridge runs where its log shows frames, no failed session and no device
/// that was refused for the game's own Agility SDK.
pub proof fn law_bridge_log(st: &GameStatus, l: &Logs, rs: Seq<char>)
    requires
        left_behind(l, rs),
    ensures
        tells(st, l, Level::Fine, BRIDGE_RUNS@) <==> l.bridge is Some && occurs(
            l.bridge->0@,
            "frames:"@,
        ) && !occurs(l.bridge->0@, "session failed"@) && forall|i: int|
            0 <= i < lines(l.bridge->0@).len() ==> !occurs(
                #[trigger] lines(l.bridge->0@)[i],
                "D3D12CreateDevice failed 0x887E0003"@,
            ),
{
    broadcast use group_has;

    fine_marks();
    plain_sources(st, l, rs, (Level::Fine, BRIDGE_RUNS@));
    if let Some(b) = l.bridge {
        let p = holding("D3D12CreateDevice failed 0x887E0003"@);
        first_of(lines(b@), p, 0);
        if first_line(b@, p) is None {
            assert forall|i: int| 0 <= i < lines(b@).len() implies !occurs(
                #[trigger] lines(b@)[i],
                "D3D12CreateDevice failed 0x887E0003"@,
            ) by {
                assert(!p(lines(b@)[i]));
            }
        } else {
            let x = first_line(b@, p)->0;
            let k = choose|k: int| 0 <= k < lines(b@).len() && x == #[trigger] lines(b@)[k] && p(x);
            assert(occurs(lines(b@)[k], "D3D12CreateDevice failed 0x887E0003"@));
        }
    }
}

/// The last line in which the bridge stopped is quoted, and the first in which
/// its device was refused, with what is known of the game's Agility SDK.
pub proof fn law_bridge_stops(st: &GameStatus, l: &Logs, rs: Seq<char>, b: Seq<char>, k: int)
    requires
        left_behind(l, rs),
        l.bridge is Some,
        l.bridge->0@ == b,
        0 <= k < lines(b).len(),
    ensures
        occurs(lines(b)[k], "stopped:"@) && (forall|j: int|
            k < j < lines(b).len() ==> !occurs(#[trigger] lines(b)[j], "stopped:"@)) ==> tells(
            st,
            l,
            Level::Bad,
            BRIDGE_STOPPED@ + trim(lines(b)[k]),
        ),
        occurs(lines(b)[k], "D3D12CreateDevice failed 0x887E0003"@) && (forall|j: int|
            0 <= j < k ==> !occurs(
                #[trigger] lines(b)[j],
                "D3D12CreateDevice failed 0x887E0003"@,
            )) ==> tells(
            st,
            l,
            Level::Bad,
            trim(lines(b)[k]) + INVALID_REDIST@ + (match (l.redist, l.redist_version) {
                (Some(p), Some(v)) => REDIST_1@ + p@ + REDIST_2@ + v@ + REDIST_3@,
                (Some(p), None) => REDIST_1@ + p@ + REDIST_2@ + "unknown"@ + REDIST_3@,
                (None, _) => NO_REDIST@,
            }),
        ),
{
    broadcast use group_has;

    let ls = lines(b);
    let p = holding("stopped:"@);
    let q = holding("D3D12CreateDevice failed 0x887E0003"@);
    last_of(ls, p, ls.len() as int);
    first_of(ls, q, 0);
    assert(p(ls[k]) == occurs(ls[k], "stopped:"@));
    assert(q(ls[k]) == occurs(ls[k], "D3D12CreateDevice failed 0x887E0003"@));
    sources(st, l, rs, (Level::Bad, BRIDGE_STOPPED@ + trim(ls[k])));
    sources(st, l, rs, (Level::Bad, trim(ls[k]) + INVALID_REDIST@ + redist_text(l)));
}

/// The first line in which the neural pass did not compile is quoted.
pub proof fn law_old_compiler(st: &GameStatus, l: &Logs, rs: Seq<char>, k: int)
    requires
        left_behind(l, rs),
        0 <= k < lines(rs).len(),
        occurs(lines(rs)[k], "X3506"@) || occurs(lines(rs)[k], "unrecognized compiler target"@),
        forall|j: int|
            0 <= j < k ==> !occurs(#[trigger] lines(rs)[j], "X3506"@) && !occurs(
                lines(rs)[j],
                "unrecognized compiler target"@,
            ),
    ensures
        tells(st, l, Level::Bad, trim(lines(rs)[k]) + OLD_COMPILER@),
{
    broadcast use group_has;

    let p = compile_failures();
    first_of(lines(rs), p, 0);
    assert(p(lines(rs)[k]));
    sources(st, l, rs, (Level::Bad, trim(lines(rs)[k]) + OLD_COMPILER@));
}

/// A program other than the picked one that ReShade was loaded into is named,
/// case aside, and nothing is said where it is the same.
pub proof fn law_other_exe(st: &GameStatus, l: &Logs, rs: Seq<char>, loaded: Seq<char>, ours: Seq<
    char,
>)
    requires
        left_behind(l, rs),
        host_exe(rs) == Some(loaded),
        name_of(st.exe@) == Some(ours),
    ensures
        !same_fold(ours, loaded) ==> tells(
            st,
            l,
            Level::Warn,
            OTHER_EXE_1@ + loaded + OTHER_EXE_2@ + ours + OTHER_EXE_3@ + loaded + OTHER_EXE_4@,
        ),
        same_fold(ours, loaded) ==> !exists|t: Seq<char>|
            starts(t, OTHER_EXE_1@) && tells(st, l, Level::Warn, t),
{
    broadcast use group_has;

    let t = OTHER_EXE_1@ + loaded + OTHER_EXE_2@ + ours + OTHER_EXE_3@ + loaded + OTHER_EXE_4@;
    sources(st, l, rs, (Level::Warn, t));
    if same_fold(ours, loaded) {
        assert forall|t: Seq<char>| starts(t, OTHER_EXE_1@) implies !tells(
            st,
            l,
            Level::Warn,
            t,
        ) by {
            warn_marks();
            bad_marks();
            let x = (Level::Warn, t);
            sources(st, l, rs, x);
            feed_sources(st, l, x);
            quoting(st, l, rs, x);
            feed_quoting(st, l, l.feed->0@, l.exe_preference, x);
            feed_quoting(st, l, l.host->0@, l.host_preference, x);
            same_heads(t, OTHER_EXE_1@);
            if starts(t, COMPILER_1@) {
                same_heads(t, COMPILER_1@);
            }
            if starts(t, OLD_FEEDER_1@) {
                same_heads(t, OLD_FEEDER_1@);
            }
        }
    }
}

/// A compiler that the game ships is always named, and the model by the copy
/// beside the exe, or by the one of the helper where there is none beside it.
pub proof fn law_files(st: &GameStatus, l: &Logs)
    ensures
        l.compiler ==> tells(
            st,
            l,
            Level::Warn,
            COMPILER_1@ + (match l.compiler_version {
                Some(v) => v@,
                None => "unknown"@,
            }) + COMPILER_2@,
        ),
        l.model_here matches Some(m) && m.version is Some ==> tells(
            st,
            l,
            Level::Fine,
            "DLSS 5 model "@ + "beside the exe"@ + ": "@ + l.model_here->0.version->0@ + " — "@
                + l.model_here->0.build@,
        ),
        l.model_here is None && (l.model_there matches Some(m) && m.version is Some) ==> tells(
            st,
            l,
            Level::Fine,
            "DLSS 5 model "@ + "in host64"@ + ": "@ + l.model_there->0.version->0@ + " — "@
                + l.model_there->0.build@,
        ),
{
    broadcast use group_has;

}

/// Where there is a first log of ReShade, the second does not count.
pub proof fn law_first_log(st: &GameStatus, l: Logs, m: Logs)
    requires
        l.reshade is Some,
        m == (Logs { reshade2: m.reshade2, ..l }),
    ensures
        diagnosis(st, &l) == diagnosis(st, &m),
{
    same_parts(st, &l, &m);
}

/// Where there is no first log of ReShade, the second stands in its place.
pub proof fn law_second_log(st: &GameStatus, l: Logs, m: Logs)
    requires
        l.reshade is None,
        m == (Logs { reshade: l.reshade2, ..l }),
    ensures
        diagnosis(st, &l) == diagnosis(st, &m),
{
    same_parts(st, &l, &m);
}

#[verifier::rlimit(40)]
proof fn same_parts(st: &GameStatus, l: &Logs, m: &Logs)
    requires
        *m == (Logs { reshade: m.reshade, reshade2: m.reshade2, ..*l }),
    ensures
        compiler_part(l) == compiler_part(m),
        model_part(l) == model_part(m),
        bridge_part(l) == bridge_part(m),
        feed_part(st, l) == feed_part(st, m),
{
    assert(redist_text(l) == redist_text(m));
    assert(forall|s: Seq<char>| #[trigger] ngx_text(s, l) == ngx_text(s, m));
    assert(forall|s: Seq<char>, p: Option<String>| #[trigger]
        ngx_part(s, p, l) == ngx_part(s, p, m));
    assert(host_part(st, l) == host_part(st, m));
}

/// The logs of the Feeder and of its helper say nothing of a native game.
pub proof fn law_native_without_feeder(st: &GameStatus, l: Logs, m: Logs)
    requires
        st.mode == Mode::Native,
        m == (Logs { feed: m.feed, host: m.host, ..l }),
    ensures
        diagnosis(st, &l) == diagnosis(st, &m),
{
}

/// The numbers agree before `k`; there the first has ended, or is smaller.
pub open spec fn smaller_at(x: Seq<u64>, y: Seq<u64>, k: int) -> bool {
    &&& 0 <= k < y.len()
    &&& k <= x.len()
    &&& k == x.len() || x[k] < y[k]
    &&& forall|j: int| 0 <= j < k ==> x[j] == #[trigger] y[j]
}

/// A version is older than another where the first number in which they differ
/// is smaller, or where it ends first.
pub proof fn law_older(a: Seq<char>, b: Seq<char>)
    ensures
        is_older(a, b) <==> exists|k: int|
            smaller_at(version_numbers(a), version_numbers(b), k),
        !is_older(a, a),
        is_older(a, b) ==> !is_older(b, a),
{
    let x = version_numbers(a);
    let y = version_numbers(b);
    older_at(x, y, 0);
    older_at(x, x, 0);
    older_at(y, x, 0);
    if is_older(a, b) && is_older(b, a) {
        let k = choose|k: int| smaller_at(x, y, k);
        let m = choose|k: int| smaller_at(y, x, k);
        assert(k < m ==> y[k] == x[k]);
        assert(m < k ==> x[m] == y[m]);
    }
}

proof fn older_at(x: Seq<u64>, y: Seq<u64>, i: int)
    requires
        0 <= i <= x.len(),
        i <= y.len(),
        forall|j: int| 0 <= j < i ==> x[j] == #[trigger] y[j],
    ensures
        older_from(x, y, i) <==> exists|k: int| smaller_at(x, y, k),
    decreases y.len() - i,
{
    if i < y.len() && i < x.len() && x[i] == y[i] {
        older_at(x, y, i + 1);
    } else {
        if older_from(x, y, i) {
            assert(smaller_at(x, y, i));
        }
        if exists|k: int| smaller_at(x, y, k) {
            let k = choose|k: int| smaller_at(x, y, k);
            assert(k >= i);
            assert(i < k ==> x[i] == y[i]);
        }
    }
}

/// The first line in which the add-on was refused is answered with its error
/// code; what the code means is said of those two that are known, and of no
/// other.
pub proof fn law_refused(st: &GameStatus, l: &Logs, rs: Seq<char>, k: int, code: Seq<char>)
    requires
        left_behind(l, rs),
        0 <= k < lines(rs).len(),
        occurs(lines(rs)[k], "Failed to load add-on"@),
        occurs(lines(rs)[k], "renodx-dlss5"@),
        forall|j: int|
            0 <= j < k ==> !(occurs(#[trigger] lines(rs)[j], "Failed to load add-on"@) && occurs(
                lines(rs)[j],
                "renodx-dlss5"@,
            )),
        code == error_code(lines(rs)[k]),
    ensures
        trim(code) == "2148073478"@ ==> tells(
            st,
            l,
            Level::Bad,
            REFUSED@ + code + REFUSES_UNSIGNED@ + "."@,
        ),
        trim(code) == "1114"@ ==> tells(st, l, Level::Bad, REFUSED@ + code + ENTRY_FAILED@ + "."@),
        trim(code) != "2148073478"@ && trim(code) != "1114"@ ==> tells(
            st,
            l,
            Level::Bad,
            REFUSED@ + code + "."@,
        ),
{
    broadcast use group_has;

    let p = addon_failures();
    first_of(lines(rs), p, 0);
    assert(p(lines(rs)[k]));
    assert forall|j: int| 0 <= j < k implies !p(#[trigger] lines(rs)[j]) by {}
    reveal_strlit("2148073478");
    reveal_strlit("1114");
    reveal_strlit("");
    assert("1114"@.len() != "2148073478"@.len());
    assert(REFUSED@ + code + ""@ + "."@ =~= REFUSED@ + code + "."@);
    let t = REFUSED@ + code + code_meaning(code) + "."@;
    sources(st, l, rs, (Level::Bad, t));
    assert(first_line(rs, p) == Some(lines(rs)[k]));
    assert(addon_part(rs).contains((Level::Bad, t)));
}

/// The error code is what stands after the last "error code ", without the
/// exclamation marks that end it.
pub proof fn law_error_code(before: Seq<char>, code: Seq<char>)
    requires
        code.len() > 0,
        code.last() != '!',
        forall|i: int| 0 <= i < code.len() ==> #[trigger] code[i] != 'e',
    ensures
        error_code(before + "error code "@ + code) == code,
        error_code(before + "error code "@ + code.push('!')) == code,
{
    let bang = code.push('!');
    behind_code(before, code);
    behind_code(before, bang);
    assert(bang.drop_last() =~= code);
}

/// Where the word before the code begins again, it goes on otherwise.
proof fn code_word()
    ensures
        "error code "@.len() == 11,
        "error code "@[0] == 'e',
        forall|k: int|
            0 < k < 11 ==> #[trigger] "error code "@[k] != 'e' || (k == 9 && "error code "@[k + 1]
                != "error code "@[1]),
{
    reveal_strlit("error code ");
}

#[verifier::rlimit(40)]
proof fn behind_code(before: Seq<char>, tail: Seq<char>)
    requires
        forall|i: int| 0 <= i < tail.len() ==> #[trigger] tail[i] != 'e',
    ensures
        after_last(before + "error code "@ + tail, "error code "@) == tail,
{
    code_word();
    let t = "error code "@;
    let s = before + t + tail;
    let m = before.len() as int;
    assert(s.subrange(m, m + 11) =~= t);
    assert forall|j: int| m < j <= s.len() - 11 implies !#[trigger] at(s, t, j) by {
        assert(s.subrange(j, j + 11)[0] == s[j]);
        assert(s.subrange(j, j + 11)[1] == s[j + 1]);
        if j < m + 11 {
            assert(s[j] == t[j - m]);
            if j == m + 9 {
                assert(s[j + 1] == t[10]);
            }
        } else {
            assert(s[j] == tail[j - m - 11]);
        }
    }
    rfind_is(s, t, m, s.len() - 11);
    assert(s.skip(m + 11) =~= tail);
}

proof fn rfind_is(s: Seq<char>, t: Seq<char>, m: int, i: int)
    requires
        0 <= m <= i,
        at(s, t, m),
        forall|j: int| m < j <= i ==> !#[trigger] at(s, t, j),
    ensures
        rfind_from(s, t, i) == Some(m),
    decreases i,
{
    if i > m {
        rfind_is(s, t, m, i - 1);
    }
}

/// The Feeder's version stands in the first line of its log, behind the first
/// word that names the Feeder. One that is older than the newest is worth a
/// word, and no other is.
#[verifier::rlimit(40)]
pub proof fn law_old_feeder(st: &GameStatus, l: &Logs, rs: Seq<char>, k: int, v: Seq<char>)
    requires
        left_behind(l, rs),
        st.mode == Mode::Feeder,
        l.feed is Some,
        lines(l.feed->0@).len() > 0,
        ({
            let w = words(lines(l.feed->0@)[0]);
            &&& 0 <= k < w.len() - 1
            &&& starts(w[k], "dlss5-feed"@)
            &&& forall|j: int| 0 <= j < k ==> !starts(#[trigger] w[j], "dlss5-feed"@)
            &&& w[k + 1] == v
        }),
        v.len() > 0,
        is_digit(v[0]),
    ensures
        is_older(v, "0.14.0"@) ==> tells(
            st,
            l,
            Level::Warn,
            OLD_FEEDER_1@ + v + OLD_FEEDER_2@ + "0.14.0"@ + OLD_FEEDER_3@,
        ),
        !is_older(v, "0.14.0"@) ==> !exists|t: Seq<char>|
            starts(t, OLD_FEEDER_1@) && tells(st, l, Level::Warn, t),
{
    broadcast use group_has;

    let fd = l.feed->0@;
    let w = words(lines(fd)[0]);
    version_behind(w, k, 0);
    let t = OLD_FEEDER_1@ + v + OLD_FEEDER_2@ + "0.14.0"@ + OLD_FEEDER_3@;
    sources(st, l, rs, (Level::Warn, t));
    feed_sources(st, l, (Level::Warn, t));
    if !is_older(v, "0.14.0"@) {
        assert forall|t: Seq<char>| starts(t, OLD_FEEDER_1@) implies !tells(
            st,
            l,
            Level::Warn,
            t,
        ) by {
            warn_marks();
            let x = (Level::Warn, t);
            sources(st, l, rs, x);
            feed_sources(st, l, x);
            quoting(st, l, rs, x);
            feed_quoting(st, l, l.host->0@, l.host_preference, x);
            feed_quoting(st, l, fd, l.exe_preference, x);
            same_heads(t, OLD_FEEDER_1@);
            if starts(t, COMPILER_1@) {
                same_heads(t, COMPILER_1@);
            }
            if starts(t, OTHER_EXE_1@) {
                same_heads(t, OTHER_EXE_1@);
            }
        }
    }
}

proof fn version_behind(w: Seq<Seq<char>>, k: int, i: int)
    requires
        0 <= i <= k < w.len() - 1,
        starts(w[k], "dlss5-feed"@),
        forall|j: int| 0 <= j < k ==> !starts(#[trigger] w[j], "dlss5-feed"@),
    ensures
        version_after(w, i) == Some(w[k + 1]),
    decreases k - i,
{
    if i < k {
        version_behind(w, k, i + 1);
    }
}

/// The last line in which the feed stopped is quoted.
pub proof fn law_feed_stops(st: &GameStatus, l: &Logs, rs: Seq<char>, k: int)
    requires
        left_behind(l, rs),
        st.mode == Mode::Feeder,
        l.feed is Some,
        0 <= k < lines(l.feed->0@).len(),
        occurs(lines(l.feed->0@)[k], "stopped:"@),
        forall|j: int|
            k < j < lines(l.feed->0@).len() ==> !occurs(
                #[trigger] lines(l.feed->0@)[j],
                "stopped:"@,
            ),
    ensures
        tells(st, l, Level::Bad, FEED_STOPPED@ + trim(lines(l.feed->0@)[k])),
{
    broadcast use group_has;

    let ls = lines(l.feed->0@);
    let p = holding("stopped:"@);
    let x = (Level::Bad, FEED_STOPPED@ + trim(ls[k]));
    last_of(ls, p, ls.len() as int);
    assert(p(ls[k]));
    sources(st, l, rs, x);
    feed_sources(st, l, x);
}

/// NGX was refused in a log, in line `k` first.
pub open spec fn refused_at(log: Seq<char>, k: int) -> bool {
    let ls = lines(log);
    &&& 0 <= k < ls.len()
    &&& occurs(ls[k], "NVSDK_NGX"@) && occurs(ls[k], "Init"@) && occurs(ls[k], "0xBAD00001"@)
    &&& forall|j: int|
        0 <= j < k ==> !(occurs(#[trigger] ls[j], "NVSDK_NGX"@) && occurs(ls[j], "Init"@)
            && occurs(ls[j], "0xBAD00001"@))
}

/// The first line in which NGX was refused is quoted, from the game's log and
/// from the helper's, with the state of the system; a sound system is not to be
/// mended, and a broken one is. On a machine with more than one vendor the choice
/// of the adapter is named as well, with what is already set for that program.
#[verifier::rlimit(40)]
pub proof fn law_ngx_refused(st: &GameStatus, l: &Logs, rs: Seq<char>, log: Seq<char>, k: int)
    requires
        left_behind(l, rs),
        st.mode == Mode::Feeder,
        l.feed is Some,
        log == l.feed->0@ || (l.host is Some && log == l.host->0@),
        refused_at(log, k),
    ensures
        ({
            let line = NGX_1@ + trim(lines(log)[k]) + NGX_2@ + l.ngx_system@ + NGX_3@;
            let vendors = HYBRID_1@ + join(cards(texts(l.adapters@)), ", "@) + HYBRID_2@;
            let mixed = is_hybrid(cards(texts(l.adapters@)));
            let asked = if log == l.feed->0@ {
                l.exe_preference
            } else {
                l.host_preference
            };
            &&& l.ngx_healthy ==> tells(st, l, Level::Bad, line + NGX_FINE@)
            &&& !l.ngx_healthy ==> tells(st, l, Level::Bad, line + NGX_BROKEN@)
            &&& mixed && (asked matches Some(p) && prefers(p@)) ==> tells(
                st,
                l,
                Level::Bad,
                vendors + HYBRID_SET@ + HYBRID_3@,
            )
            &&& mixed && !(asked matches Some(p) && prefers(p@)) ==> tells(
                st,
                l,
                Level::Bad,
                vendors + HYBRID_3@,
            )
        }),
{
    broadcast use group_has;

    let p = ngx_refusals();
    let ls = lines(log);
    first_of(ls, p, 0);
    assert(p(ls[k]));
    assert forall|j: int| 0 <= j < k implies !p(#[trigger] ls[j]) by {}
    assert(first_line(log, p) == Some(ls[k]));
    let names = cards(texts(l.adapters@));
    let asked = if log == l.feed->0@ {
        l.exe_preference
    } else {
        l.host_preference
    };
    let set = match asked {
        Some(q) => prefers(q@),
        None => false,
    };
    let x = (Level::Bad, ngx_text(ls[k], l));
    let y = (Level::Bad, hybrid_text(names, set));
    assert(ngx_part(log, asked, l).contains(x));
    assert(is_hybrid(names) ==> ngx_part(log, asked, l).contains(y));
    sources(st, l, rs, x);
    sources(st, l, rs, y);
    feed_sources(st, l, x);
    feed_sources(st, l, y);
    reveal_strlit("");
    let vendors = HYBRID_1@ + join(names, ", "@) + HYBRID_2@;
    assert(vendors + ""@ + HYBRID_3@ =~= vendors + HYBRID_3@);
}

/// Where no log shows any trouble, nothing is said to be wrong: the add-on
/// registered and was not refused, the shaders compiled, the model ran or the
/// game was never meant to call it, and neither the bridge nor the Feeder nor
/// its helper stopped, was refused or missed anything.
#[verifier::rlimit(40)]
pub proof fn law_all_well(st: &GameStatus, l: &Logs, rs: Seq<char>)
    requires
        left_behind(l, rs),
        occurs(rs, "DLSS 5 Neural Rendering"@),
        !a_line_holds(rs, "Failed to load add-on"@, "renodx-dlss5"@, ""@),
        forall|i: int|
            0 <= i < lines(rs).len() ==> !occurs(#[trigger] lines(rs)[i], "X3506"@) && !occurs(
                lines(rs)[i],
                "unrecognized compiler target"@,
            ),
        st.mode == Mode::Native ==> occurs(rs, "inline feature 18 evaluation succeeded"@) || occurs(
            rs,
            "feature=1 (DLSS/DLAA)"@,
        ),
        l.bridge matches Some(b) ==> forall|i: int|
            0 <= i < lines(b@).len() ==> !occurs(#[trigger] lines(b@)[i], "stopped:"@) && !occurs(
                lines(b@)[i],
                "D3D12CreateDevice failed 0x887E0003"@,
            ),
        st.mode == Mode::Feeder ==> l.feed is Some,
        st.mode == Mode::Feeder ==> {
            let fd = l.feed->0@;
            &&& !occurs(fd, "technique MISSING"@)
            &&& !occurs(fd, "0% non-zero"@)
            &&& !occurs(fd, "DLSS super sampling is not available"@)
            &&& forall|i: int|
                0 <= i < lines(fd).len() ==> !occurs(#[trigger] lines(fd)[i], "stopped:"@)
                    && !occurs(lines(fd)[i], "-> none (not installed)"@) && !occurs(
                    lines(fd)[i],
                    "0xBAD00001"@,
                )
        },
        st.mode == Mode::Feeder ==> (l.host matches Some(h) ==> forall|i: int|
            0 <= i < lines(h@).len() ==> !occurs(#[trigger] lines(h@)[i], "0xBAD00001"@)),
    ensures
        forall|i: int|
            0 <= i < diagnosis(st, l).len() ==> (#[trigger] diagnosis(st, l)[i]).0 != Level::Bad,
{
    broadcast use group_has;

    let d = diagnosis(st, l);
    addon_lines(rs);
    first_of(lines(rs), compile_failures(), 0);
    if let Some(b) = l.bridge {
        let ls = lines(b@);
        last_of(ls, holding("stopped:"@), ls.len() as int);
        first_of(ls, holding("D3D12CreateDevice failed 0x887E0003"@), 0);
    }
    if st.mode == Mode::Feeder {
        let ls = lines(l.feed->0@);
        last_of(ls, holding("stopped:"@), ls.len() as int);
        last_of(ls, holding("[feed] effects:"@), ls.len() as int);
        first_of(ls, ngx_refusals(), 0);
        if let Some(h) = l.host {
            first_of(lines(h@), ngx_refusals(), 0);
        }
    }
    assert forall|i: int| 0 <= i < d.len() implies (#[trigger] d[i]).0 != Level::Bad by {
        let x = d[i];
        assert(d.contains(x));
        sources(st, l, rs, x);
        feed_sources(st, l, x);
    }
}

proof fn pieces_meet(x: Seq<char>, y: Seq<char>, c: char)
    ensures
        pieces(x.push(c) + y, c) == pieces(x, c) + pieces(y, c),
        pieces(y, c).len() > 0,
    decreases y.len(),
{
    let s = x.push(c) + y;
    if y.len() == 0 {
        assert(s =~= x.push(c));
        assert(s.drop_last() =~= x);
        assert(pieces(s, c) =~= pieces(x, c) + pieces(y, c));
    } else {
        let z = y.drop_last();
        pieces_meet(x, z, c);
        assert(s.drop_last() =~= x.push(c) + z);
        let p = pieces(x, c);
        let q = pieces(z, c);
        assert((p + q).last() == q.last());
        assert((p + q).drop_last() =~= p + q.drop_last());
        assert(pieces(s, c) =~= p + pieces(y, c));
    }
}

proof fn replace_meets(x: Seq<char>, y: Seq<char>, c: char, by: Seq<char>)
    ensures
        replace_char(x + y, c, by) == replace_char(x, c, by) + replace_char(y, c, by),
    decreases y.len(),
{
    if y.len() == 0 {
        assert(x + y =~= x);
        assert(replace_char(x, c, by) + replace_char(y, c, by) =~= replace_char(x, c, by));
    } else {
        replace_meets(x, y.drop_last(), c, by);
        assert((x + y).drop_last() =~= x + y.drop_last());
        assert(replace_char(x + y, c, by) =~= replace_char(x, c, by) + replace_char(y, c, by));
    }
}

/// The numbers of a version are those of its parts, which a point or a hyphen
/// parts; a part that is a number counts as that number.
#[verifier::rlimit(40)]
pub proof fn law_version_numbers(a: Seq<char>, b: Seq<char>, n: nat)
    ensures
        version_numbers(a + seq!['.'] + b) == version_numbers(a) + version_numbers(b),
        version_numbers(a + seq!['-'] + b) == version_numbers(a) + version_numbers(b),
        n <= u64::MAX ==> version_numbers(dec(n)) == seq![n as u64],
{
    reveal_strlit(".");
    let by = "."@;
    let f = |p: Seq<char>|
        match parsed_u64(p) {
            Some(n) => n,
            None => 0u64,
        };
    let x = replace_char(a, '-', by);
    let y = replace_char(b, '-', by);
    pieces_meet(x, y, '.');
    assert(x.push('.') + y =~= x + seq!['.'] + y);
    replace_meets(a + seq!['.'], b, '-', by);
    replace_meets(a, seq!['.'], '-', by);
    replace_meets(a + seq!['-'], b, '-', by);
    replace_meets(a, seq!['-'], '-', by);
    one_replaced('.', by);
    one_replaced('-', by);
    let p = pieces(x, '.');
    let q = pieces(y, '.');
    assert((p + q).map_values(f) =~= p.map_values(f) + q.map_values(f));
    assert(by =~= seq!['.']);
    if n <= u64::MAX {
        crate::net_laws::law_number_read(n);
        let d = dec(n);
        digits_plain(n);
        same_without(d, '-', by);
        pieces_whole(d, '.');
        assert(pieces(d, '.').map_values(f) =~= seq![n as u64]);
    }
}

proof fn one_replaced(c: char, by: Seq<char>)
    ensures
        replace_char(seq![c], '-', by) == (if c == '-' {
            by
        } else {
            seq![c]
        }),
{
    let s = seq![c];
    assert(s.drop_last() =~= Seq::<char>::empty());
    assert(replace_char(s.drop_last(), '-', by) =~= Seq::<char>::empty());
    assert(replace_char(s, '-', by) =~= (if c == '-' {
        by
    } else {
        seq![c]
    }));
}

proof fn digits_plain(n: nat)
    ensures
        !dec(n).contains('.'),
        !dec(n).contains('-'),
        dec(n).len() > 0,
    decreases n,
{
    if n >= 10 {
        digits_plain(n / 10);
        let d = dec(n);
        let e = dec(n / 10);
        assert forall|i: int| 0 <= i < d.len() implies d[i] != '.' && d[i] != '-' by {
            if i < d.len() - 1 {
                assert(d[i] == e[i]);
                assert(e.contains(e[i]));
            }
        }
    }
}

proof fn same_without(s: Seq<char>, c: char, by: Seq<char>)
    requires
        !s.contains(c),
    ensures
        replace_char(s, c, by) == s,
    decreases s.len(),
{
    if s.len() > 0 {
        let u = s.drop_last();
        assert(s[s.len() - 1] == s.last());
        assert(!u.contains(c)) by {
            if u.contains(c) {
                let i = choose|i: int| 0 <= i < u.len() && u[i] == c;
                assert(s[i] == c);
            }
        }
        same_without(u, c, by);
        assert(u + seq![s.last()] =~= s);
    } else {
        assert(replace_char(s, c, by) =~= s);
    }
}

proof fn pieces_whole(s: Seq<char>, c: char)
    requires
        !s.contains(c),
    ensures
        pieces(s, c) == seq![s],
    decreases s.len(),
{
    if s.len() > 0 {
        let u = s.drop_last();
        assert(s[s.len() - 1] == s.last());
        assert(!u.contains(c)) by {
            if u.contains(c) {
                let i = choose|i: int| 0 <= i < u.len() && u[i] == c;
                assert(s[i] == c);
            }
        }
        pieces_whole(u, c);
        assert(u.push(s.last()) =~= s);
        assert(pieces(s, c) =~= seq![s]);
    } else {
        assert(s =~= Seq::<char>::empty());
        assert(pieces(s, c) =~= seq![s]);
    }
}

/// The program that ReShade was loaded into is named by the first line that tells
/// of it: by what is quoted behind the first " into ".
#[verifier::rlimit(40)]
pub proof fn law_host_exe(log: Seq<char>, k: int, from: Seq<char>, path: Seq<char>, rest: Seq<char>)
    requires
        0 <= k < lines(log).len(),
        lines(log)[k] == from + " into "@ + seq!['\''] + path + seq!['\''] + rest,
        occurs(lines(log)[k], "loaded from"@),
        forall|j: int|
            0 <= j < k ==> !(occurs(#[trigger] lines(log)[j], "loaded from"@) && occurs(
                lines(log)[j],
                " into "@,
            )),
        forall|i: int| 0 <= i < from.len() ==> !at(lines(log)[k], " into "@, i),
        !path.contains('\''),
        !occurs(seq!['\''] + path + seq!['\''] + rest, " into "@),
    ensures
        host_exe(log) == name_of(path),
{
    let line = lines(log)[k];
    let t = " into "@;
    let tail = seq!['\''] + path + seq!['\''] + rest;
    let m = from.len() as int;
    assert(line =~= from + t + tail);
    assert(line.subrange(m, m + t.len()) =~= t);
    assert(at(line, t, m));
    find_from_first(line, t, 0);
    let f = find_from(line, t, 0);
    assert(f == Some(m));
    assert(line.skip(m + t.len()) =~= tail);
    find_from_first(tail, t, 0);
    assert(find_from(tail, t, 0) is None) by {
        if let Some(i) = find_from(tail, t, 0) {
            assert(occurs(tail, t));
        }
    }
    let e = Seq::<char>::empty();
    assert(tail =~= e.push('\'') + (path.push('\'') + rest));
    pieces_meet(e, path.push('\'') + rest, '\'');
    pieces_meet(path, rest, '\'');
    pieces_whole(path, '\'');
    pieces_whole(e, '\'');
    assert(pieces(tail, '\'')[1] == path);
    let p = load_lines();
    first_of(lines(log), p, 0);
    assert(occurs(line, t));
    assert(p(line));
    assert forall|j: int| 0 <= j < k implies !p(#[trigger] lines(log)[j]) by {}
    assert(first_line(log, p) == Some(line));
}

/// The findings stand in reading order: what ReShade's log says before what the
/// bridge's says, and that before what the Feeder's says.
#[verifier::rlimit(40)]
pub proof fn law_reading_order(st: &GameStatus, l: &Logs, rs: Seq<char>, i: int, j: int, k: int)
    requires
        left_behind(l, rs),
        0 <= i < diagnosis(st, l).len(),
        0 <= j < diagnosis(st, l).len(),
        0 <= k < diagnosis(st, l).len(),
        diagnosis(st, l)[i] == (Level::Fine, LOADED@),
        diagnosis(st, l)[j] == (Level::Fine, BRIDGE_RUNS@),
        diagnosis(st, l)[k] == (Level::Fine, FEED_READY@),
    ensures
        i < j < k,
{
    broadcast use group_has;

    fine_marks();
    let a = compiler_part(l) + model_part(l);
    let b = reshade_part(st, rs);
    let c = bridge_part(l);
    let e = feed_part(st, l);
    let d = diagnosis(st, l);
    assert(d == a + (b + c + e));
    let x = (Level::Fine, LOADED@);
    let y = (Level::Fine, BRIDGE_RUNS@);
    let z = (Level::Fine, FEED_READY@);
    quoting(st, l, rs, x);
    quoting(st, l, rs, y);
    quoting(st, l, rs, z);
    feed_sources(st, l, x);
    feed_sources(st, l, y);
    feed_apart(st, l, l.feed->0@, l.exe_preference, x);
    feed_apart(st, l, l.feed->0@, l.exe_preference, y);
    feed_apart(st, l, l.host->0@, l.host_preference, x);
    feed_apart(st, l, l.host->0@, l.host_preference, y);
    reveal_strlit("DLSS 5 model ");
    if starts(x.1, "DLSS 5 model "@) {
        same_heads(x.1, "DLSS 5 model "@);
    }
    if starts(y.1, "DLSS 5 model "@) {
        same_heads(y.1, "DLSS 5 model "@);
    }
    if starts(z.1, "DLSS 5 model "@) {
        same_heads(z.1, "DLSS 5 model "@);
    }
    assert(!a.contains(x) && !a.contains(y) && !a.contains(z));
    assert(!c.contains(x) && !e.contains(x));
    assert(!b.contains(y) && !e.contains(y));
    assert(!b.contains(z) && !c.contains(z));
    let n = a.len() as int;
    let m = n + b.len();
    let o = m + c.len();
    assert(d.len() == o + e.len());
    within(a, b, c, e, i);
    within(a, b, c, e, j);
    within(a, b, c, e, k);
}

/// In which of the four parts a finding stands.
proof fn within(a: Seq<Note>, b: Seq<Note>, c: Seq<Note>, e: Seq<Note>, i: int)
    requires
        0 <= i < (a + (b + c + e)).len(),
    ensures
        ({
            let x = (a + (b + c + e))[i];
            &&& i < a.len() ==> a.contains(x)
            &&& a.len() <= i < a.len() + b.len() ==> b.contains(x)
            &&& a.len() + b.len() <= i < a.len() + b.len() + c.len() ==> c.contains(x)
            &&& a.len() + b.len() + c.len() <= i ==> e.contains(x)
        }),
{
    let x = (a + (b + c + e))[i];
    if i < a.len() {
        assert(a[i] == x);
    } else if i < a.len() + b.len() {
        assert(b[i - a.len()] == x);
    } else if i < a.len() + b.len() + c.len() {
        assert(c[i - a.len() - b.len()] == x);
    } else {
        assert(e[i - a.len() - b.len() - c.len()] == x);
    }
}

} // verus!
