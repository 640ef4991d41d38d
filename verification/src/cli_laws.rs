//! What a call asks for, and what is printed of a game.
use vstd::prelude::*;

use crate::cli::{
    action_of, check_report, exit_code, finding_text, from_line, game_says, imports_report,
    is_command, line_if, lookup_line, mode_from, other_names, padded, problem_lines, seconds_of,
    short, stale_lines, status_text, using, Action, CheckFacts, Command, Engine, RunArgs,
};
use crate::api::Api;
use crate::diagnose::{Level, Note};
use crate::game::{mode_named, GameStatus};
use crate::gpupref::{cards, is_hybrid};
use crate::library::GameView;
use crate::numbers::dec;
use crate::pe::{import_functions, import_names};
use crate::strs::{ends, join, starts, texts};
use crate::text::tidied;

verus! {

/// A diagnosis and a check change nothing: a run installs or removes only where
/// neither was asked for, and installs only where nothing else was.
pub proof fn law_action(a: &RunArgs)
    ensures
        action_of(a) == Action::Diagnose <==> a.diagnose,
        action_of(a) == Action::Check <==> a.check && !a.diagnose,
        action_of(a) == Action::RemoveAll <==> a.remove_all && !a.check && !a.diagnose,
        action_of(a) == Action::Remove <==> a.remove && !a.remove_all && !a.check && !a.diagnose,
        action_of(a) == Action::Install <==> !a.remove && !a.remove_all && !a.check && !a.diagnose,
{
}

/// The word at `k` is the first that sets the mode.
pub open spec fn sets_mode(args: Seq<Seq<char>>, k: int) -> bool {
    &&& 0 <= k < args.len()
    &&& starts(args[k], "--mode="@)
    &&& forall|j: int| 0 <= j < k ==> !starts(#[trigger] args[j], "--mode="@)
}

/// The mode is what stands behind the first `--mode=`.
pub proof fn law_mode_word(args: Seq<Seq<char>>, k: int, word: Seq<char>)
    requires
        sets_mode(args, k),
        args[k] == "--mode="@ + word,
    ensures
        mode_from(args, 0) == Some(word),
{
    reveal_strlit("--mode=");
    mode_at(args, k, 0);
    assert(args[k].skip(7) =~= word);
}

proof fn mode_at(args: Seq<Seq<char>>, k: int, i: int)
    requires
        0 <= i <= k,
        sets_mode(args, k),
    ensures
        mode_from(args, i) == Some(args[k].skip(7)),
    decreases k - i,
{
    if i < k {
        mode_at(args, k, i + 1);
    }
}

/// Without such a word no mode is set.
pub proof fn law_no_mode_word(args: Seq<Seq<char>>, i: int)
    requires
        0 <= i,
        forall|j: int| 0 <= j < args.len() ==> !starts(#[trigger] args[j], "--mode="@),
    ensures
        mode_from(args, i) is None,
    decreases args.len() - i,
{
    if i < args.len() {
        law_no_mode_word(args, i + 1);
    }
}

/// None of the words is there that stand for something other than a run.
pub open spec fn plain_call(args: Seq<Seq<char>>) -> bool {
    &&& args.len() == 0 || args[0] != "--fetch"@
    &&& !args.contains("--list-games"@)
    &&& !args.contains("--posters"@)
    &&& !args.contains("--update"@)
    &&& !args.contains("--imports"@)
}

/// A call runs on the game that its first argument names, with the options that
/// it holds, wherever they stand; without a game it opens the window; a mode that
/// is none is refused.
pub proof fn law_call(c: Command, args: Seq<Seq<char>>)
    requires
        is_command(c, args),
        plain_call(args),
    ensures
        mode_from(args, 0) is Some && mode_named(mode_from(args, 0)) is None <==> c is BadMode,
        c is Run ==> args.len() > 0 && !starts(args[0], "-"@),
        c is Window ==> args.len() == 0 || starts(args[0], "-"@),
        c is Run || c is Window || c is BadMode,
        c matches Command::Run { args: r } ==> {
            &&& r.target@ == args[0]
            &&& r.remove <==> args.contains("--remove"@)
            &&& r.remove_all <==> args.contains("--remove-all"@)
            &&& r.check <==> args.contains("--check"@)
            &&& r.diagnose <==> args.contains("--diagnose"@)
            &&& r.choice.with_renodx <==> args.contains("--renodx"@)
            &&& r.choice.upstream <==> args.contains("--upstream"@)
            &&& r.choice.engine == Engine::Opti <==> args.contains("--opti"@) || args.contains(
                "--engine=opti"@,
            )
        },
{
}

/// The words that stand for something other than a run are heard in their order.
pub proof fn law_other_calls(c: Command, args: Seq<Seq<char>>)
    requires
        is_command(c, args),
    ensures
        args.len() > 0 && args[0] == "--fetch"@ ==> c is Fetch || c is FetchUsage,
        c matches Command::Fetch { url, dest } ==> args.len() > 2 && url@ == args[1] && dest@
            == args[2],
        ({
            let free = args.len() == 0 || args[0] != "--fetch"@;
            &&& c is ListGames <==> free && args.contains("--list-games"@)
            &&& c is Posters <==> free && args.contains("--posters"@) && !args.contains(
                "--list-games"@,
            )
            &&& c is Update <==> free && args.contains("--update"@) && !args.contains(
                "--posters"@,
            ) && !args.contains("--list-games"@)
            &&& c matches Command::Imports { target } ==> args.contains("--imports"@)
                && !starts(args[0], "-"@) && target@ == args[0]
        }),
{
}

/// A diagnosis fails exactly where one of its findings is bad.
pub proof fn law_exit_code(findings: Seq<Note>, i: int)
    ensures
        0 <= i < findings.len() && findings[i].0 == Level::Bad ==> exit_code(findings) == 1,
        (forall|j: int| 0 <= j < findings.len() ==> (#[trigger] findings[j]).0 != Level::Bad)
            ==> exit_code(findings) == 0,
{
}

/// A finding is printed with the sign of its level before its tidied text.
pub proof fn law_finding_text(n: Note)
    ensures
        n.0 == Level::Fine ==> finding_text(n) == "[ok  ] "@ + tidied(n.1),
        n.0 == Level::Warn ==> finding_text(n) == "[warn] "@ + tidied(n.1),
        n.0 == Level::Bad ==> finding_text(n) == "[FAIL] "@ + tidied(n.1),
{
}

/// What is printed beside a game that was named by the user is nothing; the
/// candidates but the first are named where there are several.
pub proof fn law_using(exe: Seq<char>, candidates: Seq<Seq<char>>, i: int)
    ensures
        using(exe, candidates) is None <==> candidates.len() == 0,
        candidates.len() == 1 ==> using(exe, candidates) == Some("using "@ + exe),
        candidates.len() > 1 ==> using(exe, candidates) == Some(
            "using "@ + exe + " (other candidates: "@ + join(other_names(candidates), ", "@)
                + ")"@,
        ),
        1 <= i < candidates.len() ==> other_names(candidates).contains(short(candidates[i])),
        candidates.len() > 0 ==> other_names(candidates).len() == candidates.len() - 1,
{
    if 1 <= i < candidates.len() {
        assert(other_names(candidates)[i - 1] == short(candidates[i]));
    }
}

/// A column is as wide as it should be, and holds its text whole.
pub proof fn law_padded(s: Seq<char>, width: int)
    ensures
        padded(s, width).len() >= width,
        padded(s, width).len() >= s.len(),
        s.len() >= width ==> padded(s, width) == s,
        padded(s, width).take(s.len() as int) == s,
        forall|i: int| s.len() <= i < padded(s, width).len() ==> padded(s, width)[i] == ' ',
{
    assert(padded(s, width).take(s.len() as int) =~= s);
}

/// A time is shown in whole seconds: the time lies in that second; what is before
/// 1970 counts as zero.
pub proof fn law_seconds(installed: int)
    ensures
        installed >= 0 ==> seconds_of(installed) * 1_000_000_000 <= installed < (seconds_of(
            installed,
        ) + 1) * 1_000_000_000,
        installed < 0 ==> seconds_of(installed) == 0,
{
}

/// One line where there is something to say.
pub open spec fn one_if(b: bool) -> int {
    if b {
        1
    } else {
        0
    }
}

/// A check prints the status first and what RenoDX has last, every problem, the
/// plan, a word on REFramework for an RE Engine game, and on the GPU preference for
/// a machine with more than one vendor.
#[verifier::rlimit(40)]
pub proof fn law_check(exe: Seq<char>, st: &GameStatus, c: &CheckFacts, i: int)
    ensures
        ({
            let r = check_report(exe, st, c);
            let names = cards(texts(c.adapters@));
            &&& r[0] == status_text(exe, st)
            &&& r.last() == lookup_line(c.renodx)
            &&& 0 <= i < st.problems@.len() ==> r.contains("  ! "@ + tidied(st.problems@[i]@))
            &&& r.contains("  plan: "@ + join(texts(c.plan@), " -> "@))
            &&& st.re_engine && st.reframework ==> r.contains(
                "  RE Engine game: REFramework (dinput8.dll) "@ + "present"@,
            )
            &&& st.re_engine && !st.reframework ==> r.contains(
                "  RE Engine game: REFramework (dinput8.dll) "@ + "missing, will be installed"@,
            )
            &&& is_hybrid(names) && c.preference is Some ==> r.contains(
                "  hybrid machine ("@ + join(names, ", "@) + ") · Windows GPU preference for "@
                    + short(exe) + ": "@ + c.preference->0@,
            )
            &&& is_hybrid(names) && c.preference is None ==> r.contains(
                "  hybrid machine ("@ + join(names, ", "@) + ") · Windows GPU preference for "@
                    + short(exe) + ": "@ + "not set"@,
            )
            &&& st.renodx_mod is Some ==> r.contains(
                "  RenoDX mod installed: "@ + st.renodx_mod->0@,
            )
            &&& st.foreign_renodx@.len() > 0 ==> r.contains(
                "  RenoDX mod present (not installed by this tool): "@ + join(
                    texts(st.foreign_renodx@),
                    ", "@,
                ),
            )
        }),
{
    let names = cards(texts(c.adapters@));
    let a = seq![status_text(exe, st)];
    let b = problem_lines(texts(st.problems@));
    let plan = "  plan: "@ + join(texts(c.plan@), " -> "@);
    let p = seq![plan];
    let engine = "  RE Engine game: REFramework (dinput8.dll) "@ + (if st.reframework {
        "present"@
    } else {
        "missing, will be installed"@
    });
    let e = line_if(st.re_engine, engine);
    let mixed = "  hybrid machine ("@ + join(names, ", "@) + ") · Windows GPU preference for "@
        + short(exe) + ": "@ + (match c.preference {
        Some(p) => p@,
        None => "not set"@,
    });
    let h = line_if(is_hybrid(names), mixed);
    let s = stale_lines(c.stale);
    let m: Seq<Seq<char>> = match st.renodx_mod {
        Some(m) => seq!["  RenoDX mod installed: "@ + m@],
        None => Seq::empty(),
    };
    let other = "  RenoDX mod present (not installed by this tool): "@ + join(
        texts(st.foreign_renodx@),
        ", "@,
    );
    let f = line_if(st.foreign_renodx@.len() > 0, other);
    let l = seq![lookup_line(c.renodx)];
    let r = check_report(exe, st, c);
    assert(r == a + b + p + e + h + s + m + f + l);
    assert(r[0] == a[0]);
    assert(r.last() == l[0]);
    let n1 = (a.len() + b.len()) as int;
    if 0 <= i < st.problems@.len() {
        assert(b[i] == "  ! "@ + tidied(st.problems@[i]@));
        assert(r[1 + i] == b[i]);
    }
    assert(r[n1] == plan);
    if st.re_engine {
        assert(r[n1 + 1] == engine);
    }
    if is_hybrid(names) {
        assert(r[n1 + 1 + e.len()] == mixed);
    }
    if st.renodx_mod is Some {
        assert(r[n1 + 1 + e.len() + h.len() + s.len()] == m[0]);
    }
    if st.foreign_renodx@.len() > 0 {
        assert(r[n1 + 1 + e.len() + h.len() + s.len() + m.len()] == other);
    }
}

/// A check prints no line but those that have something to say.
pub proof fn law_check_length(exe: Seq<char>, st: &GameStatus, c: &CheckFacts)
    ensures
        check_report(exe, st, c).len() == 3 + st.problems@.len() + stale_lines(c.stale).len()
            + one_if(st.re_engine) + one_if(is_hybrid(cards(texts(c.adapters@)))) + one_if(
            st.renodx_mod is Some,
        ) + one_if(st.foreign_renodx@.len() > 0),
{
    assert(problem_lines(texts(st.problems@)).len() == st.problems@.len());
}

/// Of an install of this tool it is said that all is current, or what is not; of
/// any other game nothing is.
pub proof fn law_stale_lines(v: Vec<String>, i: int)
    ensures
        stale_lines(None).len() == 0,
        v@.len() == 0 ==> stale_lines(Some(v)) == seq![
            "  installed by this tool · everything current"@,
        ],
        v@.len() > 0 ==> stale_lines(Some(v)).len() == v@.len() + 1 && stale_lines(Some(v))[0]
            == "  installed by this tool · out of date:"@,
        0 <= i < v@.len() ==> stale_lines(Some(v))[i + 1] == "    "@ + v@[i]@,
{
}

/// What `--imports` prints begins with the program and the API, and names the
/// functions of each of the four libraries that are imported.
#[verifier::rlimit(40)]
pub proof fn law_imports_report(exe: Seq<char>, api: Api, b: Seq<u8>)
    ensures
        ({
            let r = imports_report(exe, api, b);
            &&& r[0] == exe
            &&& r[1] == "  api read as: "@ + api.says()
            &&& r[2] == "  imports: "@ + join(import_names(b), ", "@)
            &&& r.len() == 3 + one_if(import_functions(b, "d3d9.dll"@).len() > 0) + one_if(
                import_functions(b, "d3d11.dll"@).len() > 0,
            ) + one_if(import_functions(b, "d3d12.dll"@).len() > 0) + one_if(
                import_functions(b, "dxgi.dll"@).len() > 0,
            )
            &&& import_functions(b, "d3d9.dll"@).len() > 0 ==> r.contains(
                "  from "@ + "d3d9.dll"@ + ": "@ + join(import_functions(b, "d3d9.dll"@), ", "@),
            )
            &&& import_functions(b, "d3d11.dll"@).len() > 0 ==> r.contains(
                "  from "@ + "d3d11.dll"@ + ": "@ + join(import_functions(b, "d3d11.dll"@), ", "@),
            )
            &&& import_functions(b, "d3d12.dll"@).len() > 0 ==> r.contains(
                "  from "@ + "d3d12.dll"@ + ": "@ + join(import_functions(b, "d3d12.dll"@), ", "@),
            )
            &&& import_functions(b, "dxgi.dll"@).len() > 0 ==> r.contains(
                "  from "@ + "dxgi.dll"@ + ": "@ + join(import_functions(b, "dxgi.dll"@), ", "@),
            )
        }),
{
    let r = imports_report(exe, api, b);
    let n9 = from_line("d3d9.dll"@, import_functions(b, "d3d9.dll"@));
    let n11 = from_line("d3d11.dll"@, import_functions(b, "d3d11.dll"@));
    let n12 = from_line("d3d12.dll"@, import_functions(b, "d3d12.dll"@));
    let ng = from_line("dxgi.dll"@, import_functions(b, "dxgi.dll"@));
    if n9.len() > 0 {
        assert(r[3] == n9[0]);
    }
    if n11.len() > 0 {
        assert(r[(3 + n9.len()) as int] == n11[0]);
    }
    if n12.len() > 0 {
        assert(r[(3 + n9.len() + n11.len()) as int] == n12[0]);
    }
    if ng.len() > 0 {
        assert(r[(3 + n9.len() + n11.len() + n12.len()) as int] == ng[0]);
    }
}

/// A line of the list of games shows the folder whole and ends with the poster; a
/// title is cut to its column.
#[verifier::rlimit(40)]
pub proof fn law_game_line(g: GameView, poster: Seq<char>)
    ensures
        ends(game_says(g, poster), " "@ + g.dir + " poster="@ + poster),
        starts(game_says(g, poster), dec(seconds_of(g.installed))),
{
    let t = game_says(g, poster);
    let tail = " "@ + g.dir + " poster="@ + poster;
    assert(t.subrange(t.len() - tail.len(), t.len() as int) =~= tail);
    let head = dec(seconds_of(g.installed));
    assert(t.subrange(0, head.len() as int) =~= head);
}

} // verus!
