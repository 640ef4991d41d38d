//! The command line: what was asked for, and what is printed.
use vstd::prelude::*;

use crate::api::Api;
use crate::chars::{chars_of, string_of};
use crate::diagnose::{notes, Finding, Level, Note};
use crate::game::{mode_named, mode_override, GameStatus, Mode};
use crate::gpupref::{cards, hybrid_from, is_hybrid, real_adapters};
use crate::library::{own_folder, Game, GameView};
use crate::numbers::{dec, dec_text, wide_text};
use crate::paths::{joined, name_of, path_join, path_name};
use crate::renodx::{status_says, Mod};
use crate::strs::{
    cat, join, join_with, list_has, opt_string, opt_text, starts, starts_with, str_eq, texts,
    texts_push,
};
use crate::text::{tidied, tidy};

verus! {

/// What carries the neural pass in a game with its own DLSS.
#[derive(Debug, Clone, Copy, PartialEq, Eq, Structural)]
pub enum Engine {
    /// ReShade with the RenoDX add-on.
    ReShade,
    /// The OptiScaler fork with a neural pass of its own.
    Opti,
}

/// What to install, as chosen on the command line.
#[derive(Debug, Clone, Copy)]
pub struct Choice {
    pub engine: Engine,
    pub with_renodx: bool,
    pub upstream: bool,
}

/// A run on one game.
#[derive(Debug)]
pub struct RunArgs {
    /// The game exe or folder.
    pub target: String,
    pub remove: bool,
    pub remove_all: bool,
    pub check: bool,
    pub diagnose: bool,
    pub choice: Choice,
}

/// What a run does to the game.
#[derive(Debug, Clone, Copy, PartialEq, Eq, Structural)]
pub enum Action {
    /// Read the logs and say what is wrong.
    Diagnose,
    /// Say what was detected, and change nothing.
    Check,
    /// Take everything out, ReShade included.
    RemoveAll,
    /// Take out what this tool added.
    Remove,
    Install,
}

#[derive(Debug)]
pub enum Command {
    /// Download a file.
    Fetch { url: String, dest: String },
    /// `--fetch` without its two arguments.
    FetchUsage,
    ListGames,
    /// Decode every poster that the scan found.
    Posters,
    Update,
    /// Print the import table of a game.
    Imports { target: String },
    /// `--imports` without a game.
    ImportsUsage,
    /// `--mode=` with a word that is no mode.
    BadMode,
    Run { args: RunArgs },
    /// Open the window.
    Window,
}

/// The arguments of a call.
#[derive(Debug)]
pub struct Call {
    pub command: Command,
    /// What the call sets for the inspection of games.
    pub ignore_anticheat: bool,
    pub mode: Option<String>,
}

/// The argument is there.
pub open spec fn given(args: Seq<Seq<char>>, a: &str) -> bool {
    args.contains(a@)
}

/// The game that the first argument names, if it is no option.
pub open spec fn named_target(args: Seq<Seq<char>>) -> Option<Seq<char>> {
    if args.len() > 0 && !starts(args[0], "-"@) {
        Some(args[0])
    } else {
        None
    }
}

/// The word after the first `--mode=`, from `i` on.
pub open spec fn mode_from(args: Seq<Seq<char>>, i: int) -> Option<Seq<char>>
    decreases args.len() - i,
{
    if i < 0 || i >= args.len() {
        None
    } else if starts(args[i], "--mode="@) {
        Some(args[i].skip(7))
    } else {
        mode_from(args, i + 1)
    }
}

pub open spec fn choice_of(args: Seq<Seq<char>>) -> Choice {
    Choice {
        engine: if given(args, "--engine=opti") || given(args, "--opti") {
            Engine::Opti
        } else {
            Engine::ReShade
        },
        with_renodx: given(args, "--renodx"),
        upstream: given(args, "--upstream"),
    }
}

/// The run that the arguments ask for.
pub open spec fn is_run(r: RunArgs, args: Seq<Seq<char>>, target: Seq<char>) -> bool {
    &&& r.target@ == target
    &&& r.remove == given(args, "--remove")
    &&& r.remove_all == given(args, "--remove-all")
    &&& r.check == given(args, "--check")
    &&& r.diagnose == given(args, "--diagnose")
    &&& r.choice == choice_of(args)
}

/// What the arguments ask for. Downloads, lists and the update come first, in
/// this order; then the settings are read; then a game is run, or the window
/// opens.
pub open spec fn is_command(c: Command, args: Seq<Seq<char>>) -> bool {
    if args.len() > 0 && args[0] == "--fetch"@ {
        if args.len() > 2 {
            c matches Command::Fetch { url, dest } && url@ == args[1] && dest@ == args[2]
        } else {
            c is FetchUsage
        }
    } else if given(args, "--list-games") {
        c is ListGames
    } else if given(args, "--posters") {
        c is Posters
    } else if given(args, "--update") {
        c is Update
    } else if given(args, "--imports") {
        match named_target(args) {
            Some(t) => c matches Command::Imports { target } && target@ == t,
            None => c is ImportsUsage,
        }
    } else if mode_from(args, 0) is Some && mode_named(mode_from(args, 0)) is None {
        c is BadMode
    } else {
        match named_target(args) {
            Some(t) => c matches Command::Run { args: r } && is_run(r, args, t),
            None => c is Window,
        }
    }
}

fn find_mode(args: &[String]) -> (r: Option<String>)
    ensures
        opt_string(r) == mode_from(texts(args@), 0),
{
    let ghost v = texts(args@);
    let mut i: usize = 0;
    while i < args.len()
        invariant
            i <= args@.len(),
            v == texts(args@),
            mode_from(v, 0) == mode_from(v, i as int),
        decreases args@.len() - i,
    {
        assert(v[i as int] == args@[i as int]@);
        if starts_with(args[i].as_str(), "--mode=") {
            proof {
                reveal_strlit("--mode=");
            }
            let x = crate::chars::chars_of(args[i].as_str());
            let w = crate::chars::string_of(x.as_slice(), 7, x.len());
            assert(w@ =~= v[i as int].skip(7));
            return Some(w);
        }
        i += 1;
    }
    None
}

fn find_target(args: &[String]) -> (r: Option<String>)
    ensures
        opt_string(r) == named_target(texts(args@)),
{
    assert(texts(args@).len() == args@.len());
    if args.len() > 0 {
        assert(texts(args@)[0] == args@[0]@);
        if !starts_with(args[0].as_str(), "-") {
            return Some(args[0].clone());
        }
    }
    None
}

fn find_command(args: &[String], mode: &Option<String>) -> (r: Command)
    requires
        opt_string(*mode) == mode_from(texts(args@), 0),
    ensures
        is_command(r, texts(args@)),
{
    let ghost v = texts(args@);
    assert(v.len() == args@.len());
    assert(forall|i: int| 0 <= i < v.len() ==> v[i] == #[trigger] args@[i]@);
    if args.len() > 0 && str_eq(args[0].as_str(), "--fetch") {
        if args.len() > 2 {
            return Command::Fetch { url: args[1].clone(), dest: args[2].clone() };
        }
        return Command::FetchUsage;
    }
    if list_has(args, "--list-games") {
        return Command::ListGames;
    }
    if list_has(args, "--posters") {
        return Command::Posters;
    }
    if list_has(args, "--update") {
        return Command::Update;
    }
    if list_has(args, "--imports") {
        return match find_target(args) {
            Some(target) => Command::Imports { target },
            None => Command::ImportsUsage,
        };
    }
    if let Some(w) = mode {
        if mode_override(Some(w.as_str())).is_none() {
            return Command::BadMode;
        }
    }
    match find_target(args) {
        Some(target) => {
            let engine = if list_has(args, "--engine=opti") || list_has(args, "--opti") {
                Engine::Opti
            } else {
                Engine::ReShade
            };
            let choice = Choice {
                engine,
                with_renodx: list_has(args, "--renodx"),
                upstream: list_has(args, "--upstream"),
            };
            let run = RunArgs {
                target,
                remove: list_has(args, "--remove"),
                remove_all: list_has(args, "--remove-all"),
                check: list_has(args, "--check"),
                diagnose: list_has(args, "--diagnose"),
                choice,
            };
            Command::Run { args: run }
        },
        None => Command::Window,
    }
}

/// What the arguments of a run ask for.
pub open spec fn action_of(args: &RunArgs) -> Action {
    if args.diagnose {
        Action::Diagnose
    } else if args.check {
        Action::Check
    } else if args.remove_all {
        Action::RemoveAll
    } else if args.remove {
        Action::Remove
    } else {
        Action::Install
    }
}

/// What a run is to do: of several that were asked for, the first in the order
/// diagnose, check, remove all, remove; without any of these, install.
pub fn action(args: &RunArgs) -> (r: Action)
    ensures
        r == action_of(args),
{
    if args.diagnose {
        Action::Diagnose
    } else if args.check {
        Action::Check
    } else if args.remove_all {
        Action::RemoveAll
    } else if args.remove {
        Action::Remove
    } else {
        Action::Install
    }
}

/// A text of at least `width` characters, filled up with spaces.
pub open spec fn padded(s: Seq<char>, width: int) -> Seq<char> {
    if s.len() < width {
        s + Seq::new((width - s.len()) as nat, |i: int| ' ')
    } else {
        s
    }
}

fn pad(s: &str, width: usize) -> (r: String)
    ensures
        r@ == padded(s@, width as int),
{
    let n: usize = chars_of(s).len();
    let mut out = s.to_owned();
    let mut i: usize = n;
    while i < width
        invariant
            n == s@.len(),
            n <= i,
            n < width ==> i <= width,
            n >= width ==> i == n,
            out@ == s@ + Seq::new((i - n) as nat, |k: int| ' '),
        decreases width - i,
    {
        let ghost before = out@;
        out.push(' ');
        i += 1;
        assert(out@ =~= s@ + Seq::new((i - n) as nat, |k: int| ' '));
    }
    assert(out@ =~= padded(s@, width as int));
    out
}

/// How much of a title the list of games shows.
pub const TITLE_WIDTH: usize = 50;

/// When a game was installed, in seconds since 1970; before that, zero.
pub open spec fn seconds_of(installed: int) -> nat {
    if installed < 0 {
        0
    } else {
        (installed / 1_000_000_000) as nat
    }
}

/// A line of the list of games.
pub open spec fn game_says(g: GameView, poster: Seq<char>) -> Seq<char> {
    let title = if g.title.len() > TITLE_WIDTH {
        g.title.take(TITLE_WIDTH as int)
    } else {
        g.title
    };
    padded(dec(seconds_of(g.installed)), 10) + " "@ + padded(g.store.says(), 12) + " "@ + padded(
        title,
        TITLE_WIDTH as int,
    ) + " "@ + g.dir + " poster="@ + poster
}

/// A line of the list of games, with its poster in words.
pub fn game_line(g: &Game, poster: &str) -> (r: String)
    ensures
        r@ == game_says(g@, poster@),
{
    let seconds: u128 = if g.installed < 0 {
        0
    } else {
        (g.installed as u128) / 1_000_000_000
    };
    let c = chars_of(g.title.as_str());
    let n: usize = if c.len() > TITLE_WIDTH {
        TITLE_WIDTH
    } else {
        c.len()
    };
    let title = string_of(c.as_slice(), 0, n);
    assert(title@ =~= (if g.title@.len() > TITLE_WIDTH {
        g.title@.take(TITLE_WIDTH as int)
    } else {
        g.title@
    }));
    let mut s = pad(wide_text(seconds).as_str(), 10);
    s.append(" ");
    s.append(pad(g.store.label(), 12).as_str());
    s.append(" ");
    s.append(pad(title.as_str(), TITLE_WIDTH).as_str());
    s.append(" ");
    s.append(g.dir.as_str());
    s.append(" poster=");
    s.append(poster);
    s
}

/// What the arguments (without the program's name) ask for.
pub fn parse_args(args: &[String]) -> (r: Call)
    ensures
        is_command(r.command, texts(args@)),
        r.ignore_anticheat == given(texts(args@), "--ignore-anticheat"),
        opt_string(r.mode) == mode_from(texts(args@), 0),
{
    let mode = find_mode(args);
    let command = find_command(args, &mode);
    Call { command, ignore_anticheat: list_has(args, "--ignore-anticheat"), mode }
}

/// The name of a file, empty where the path has none.
pub open spec fn short(p: Seq<char>) -> Seq<char> {
    match name_of(p) {
        Some(n) => n,
        None => Seq::empty(),
    }
}

fn short_name(p: &str) -> (r: String)
    ensures
        r@ == short(p@),
{
    match path_name(p) {
        Some(n) => n,
        None => {
            let none = String::new();
            assert(none@ =~= Seq::empty());
            none
        },
    }
}

/// The names of all candidates but the first.
pub open spec fn other_names(candidates: Seq<Seq<char>>) -> Seq<Seq<char>> {
    candidates.skip(1).map_values(|p: Seq<char>| short(p))
}

/// Which executable is used; nothing is said where the user named it.
pub open spec fn using(exe: Seq<char>, candidates: Seq<Seq<char>>) -> Option<Seq<char>> {
    if candidates.len() > 1 {
        Some(
            "using "@ + exe + " (other candidates: "@ + join(other_names(candidates), ", "@)
                + ")"@,
        )
    } else if candidates.len() > 0 {
        Some("using "@ + exe)
    } else {
        None
    }
}

pub fn using_line(exe: &str, candidates: &[String]) -> (r: Option<String>)
    ensures
        opt_string(r) == using(exe@, texts(candidates@)),
{
    let n: usize = candidates.len();
    assert(texts(candidates@).len() == n);
    if n > 1 {
        let ghost all = other_names(texts(candidates@));
        let mut others: Vec<String> = Vec::new();
        let mut i: usize = 1;
        assert(texts(others@) =~= all.take(0));
        while i < n
            invariant
                n == candidates@.len(),
                1 <= i <= n,
                all == other_names(texts(candidates@)),
                all.len() == n - 1,
                texts(others@) == all.take(i - 1),
            decreases n - i,
        {
            broadcast use texts_push;

            assert(all[i - 1] == short(candidates@[i as int]@));
            assert(all.take(i as int) =~= all.take(i - 1).push(all[i - 1]));
            others.push(short_name(candidates[i].as_str()));
            i += 1;
        }
        assert(all.take(i - 1) =~= all);
        let mut s = cat("using ", exe);
        s.append(" (other candidates: ");
        s.append(join_with(others.as_slice(), ", ").as_str());
        s.append(")");
        Some(s)
    } else if n > 0 {
        Some(cat("using ", exe))
    } else {
        None
    }
}

/// How a finding is printed.
pub open spec fn finding_text(n: Note) -> Seq<char> {
    (match n.0 {
        Level::Fine => "[ok  ] "@,
        Level::Warn => "[warn] "@,
        Level::Bad => "[FAIL] "@,
    }) + tidied(n.1)
}

pub fn finding_line(f: &Finding) -> (r: String)
    ensures
        r@ == finding_text(f@),
{
    let tag = match f.level {
        Level::Fine => "[ok  ] ",
        Level::Warn => "[warn] ",
        Level::Bad => "[FAIL] ",
    };
    cat(tag, tidy(f.text.as_str()).as_str())
}

/// The exit code of a diagnosis with those findings.
pub open spec fn exit_code(findings: Seq<Note>) -> i32 {
    if exists|i: int| 0 <= i < findings.len() && (#[trigger] findings[i]).0 == Level::Bad {
        1i32
    } else {
        0i32
    }
}

/// The exit code of a diagnosis: 1 where anything is wrong.
pub fn diagnosis_code(findings: &[Finding]) -> (r: i32)
    ensures
        r == exit_code(notes(findings@)),
{
    let mut i: usize = 0;
    while i < findings.len()
        invariant
            i <= findings@.len(),
            forall|j: int| 0 <= j < i ==> (#[trigger] notes(findings@)[j]).0 != Level::Bad,
        decreases findings@.len() - i,
    {
        assert(notes(findings@)[i as int] == findings@[i as int]@);
        if findings[i].level == Level::Bad {
            return 1;
        }
        i += 1;
    }
    0
}

pub open spec fn yes_no(b: bool) -> Seq<char> {
    if b {
        "true"@
    } else {
        "false"@
    }
}

fn bool_text(b: bool) -> (r: &'static str)
    ensures
        r@ == yes_no(b),
{
    if b {
        "true"
    } else {
        "false"
    }
}

pub open spec fn mode_name(m: Mode) -> Seq<char> {
    match m {
        Mode::Feeder => "Feeder"@,
        Mode::Native => "Native"@,
    }
}

/// The adapter and what it can do.
pub open spec fn gpu_text(st: &GameStatus) -> Seq<char> {
    match st.gpu {
        Some((g, t)) => g.name@ + " ["@ + t.says() + "]"@,
        None => "unknown"@,
    }
}

/// The line that sums a game up.
pub open spec fn status_text(exe: Seq<char>, st: &GameStatus) -> Seq<char> {
    exe + " | "@ + dec(st.bitness as nat) + "-bit | "@ + st.api.says() + " | mode="@ + mode_name(
        st.mode,
    ) + " | reshade="@ + yes_no(st.reshade) + " headers="@ + yes_no(st.headers) + " feeder="@
        + yes_no(st.feeder) + " lumenite="@ + yes_no(st.lumenite) + " dlss5="@ + yes_no(
        st.dlss5_addon,
    ) + " dlssnr="@ + yes_no(st.dlssnr) + " dlss="@ + yes_no(st.dlss) + " bridge="@ + yes_no(
        st.bridge,
    ) + " opti="@ + yes_no(st.opti) + " | gpu="@ + gpu_text(st) + " | complete="@ + yes_no(
        st.is_complete(),
    )
}

pub fn status_line(exe: &str, st: &GameStatus) -> (r: String)
    ensures
        r@ == status_text(exe@, st),
{
    let mut s = cat(exe, " | ");
    s.append(dec_text(st.bitness as u64).as_str());
    s.append("-bit | ");
    s.append(st.api.label());
    s.append(" | mode=");
    s.append(match st.mode {
        Mode::Feeder => "Feeder",
        Mode::Native => "Native",
    });
    s.append(" | reshade=");
    s.append(bool_text(st.reshade));
    s.append(" headers=");
    s.append(bool_text(st.headers));
    s.append(" feeder=");
    s.append(bool_text(st.feeder));
    s.append(" lumenite=");
    s.append(bool_text(st.lumenite));
    s.append(" dlss5=");
    s.append(bool_text(st.dlss5_addon));
    s.append(" dlssnr=");
    s.append(bool_text(st.dlssnr));
    s.append(" dlss=");
    s.append(bool_text(st.dlss));
    s.append(" bridge=");
    s.append(bool_text(st.bridge));
    s.append(" opti=");
    s.append(bool_text(st.opti));
    s.append(" | gpu=");
    let gpu = match &st.gpu {
        Some((g, t)) => {
            let mut x = cat(g.name.as_str(), " [");
            x.append(t.label());
            x.append("]");
            x
        },
        None => "unknown".to_owned(),
    };
    s.append(gpu.as_str());
    s.append(" | complete=");
    s.append(bool_text(st.complete()));
    s
}

/// What RenoDX was found to have for the game.
#[derive(Debug)]
pub enum Lookup {
    Found(Mod),
    Nothing,
    Failed(String),
}

/// What is printed besides the game's own status.
#[derive(Debug)]
pub struct CheckFacts {
    /// The names of the steps that an install would take.
    pub plan: Vec<String>,
    pub adapters: Vec<String>,
    /// The GPU preference of the game.
    pub preference: Option<String>,
    /// What is out of date of an install of this tool, where there is one.
    pub stale: Option<Vec<String>>,
    pub renodx: Lookup,
}

/// A line, where there is something to say.
pub open spec fn line_if(b: bool, s: Seq<char>) -> Seq<Seq<char>> {
    if b {
        seq![s]
    } else {
        Seq::empty()
    }
}

pub open spec fn problem_lines(problems: Seq<Seq<char>>) -> Seq<Seq<char>> {
    problems.map_values(|p: Seq<char>| "  ! "@ + tidied(p))
}

pub open spec fn stale_lines(stale: Option<Vec<String>>) -> Seq<Seq<char>> {
    match stale {
        Some(v) => if v@.len() == 0 {
            seq!["  installed by this tool · everything current"@]
        } else {
            seq!["  installed by this tool · out of date:"@] + texts(v@).map_values(
                |s: Seq<char>| "    "@ + s,
            )
        },
        None => Seq::empty(),
    }
}

pub open spec fn lookup_line(l: Lookup) -> Seq<char> {
    match l {
        Lookup::Found(m) => "  RenoDX HDR mod available: "@ + m.title@ + " -> "@ + m.file@ + " ("@
            + status_says(m.status@) + ")"@ + (if m.note@.len() == 0 {
            Seq::empty()
        } else {
            " | "@ + m.note@
        }),
        Lookup::Nothing => "  RenoDX HDR mod: none for this game"@,
        Lookup::Failed(e) => "  RenoDX lookup failed: "@ + e@,
    }
}

/// All that a check prints.
pub open spec fn check_report(exe: Seq<char>, st: &GameStatus, c: &CheckFacts) -> Seq<Seq<char>> {
    let names = cards(texts(c.adapters@));
    seq![status_text(exe, st)] + problem_lines(texts(st.problems@)) + seq![
        "  plan: "@ + join(texts(c.plan@), " -> "@),
    ] + line_if(
        st.re_engine,
        "  RE Engine game: REFramework (dinput8.dll) "@ + (if st.reframework {
            "present"@
        } else {
            "missing, will be installed"@
        }),
    ) + line_if(
        is_hybrid(names),
        "  hybrid machine ("@ + join(names, ", "@) + ") · Windows GPU preference for "@ + short(exe)
            + ": "@ + (match c.preference {
            Some(p) => p@,
            None => "not set"@,
        }),
    ) + stale_lines(c.stale) + (match st.renodx_mod {
        Some(m) => seq!["  RenoDX mod installed: "@ + m@],
        None => Seq::empty(),
    }) + line_if(
        st.foreign_renodx@.len() > 0,
        "  RenoDX mod present (not installed by this tool): "@ + join(
            texts(st.foreign_renodx@),
            ", "@,
        ),
    ) + seq![lookup_line(c.renodx)]
}

fn add_line(out: &mut Vec<String>, s: String)
    ensures
        texts(final(out)@) == texts(old(out)@) + seq![s@],
{
    broadcast use texts_push;

    let ghost before = texts(out@);
    out.push(s);
    assert(texts(out@) =~= before + seq![s@]);
}

fn add_problems(problems: &[String], out: &mut Vec<String>)
    ensures
        texts(final(out)@) == texts(old(out)@) + problem_lines(texts(problems@)),
{
    let ghost start = texts(out@);
    let ghost all = problem_lines(texts(problems@));
    let mut i: usize = 0;
    assert(texts(out@) =~= start + all.take(0));
    while i < problems.len()
        invariant
            i <= problems@.len(),
            start == texts(old(out)@),
            all == problem_lines(texts(problems@)),
            texts(out@) == start + all.take(i as int),
        decreases problems@.len() - i,
    {
        assert(all[i as int] == "  ! "@ + tidied(problems@[i as int]@));
        add_line(out, cat("  ! ", tidy(problems[i].as_str()).as_str()));
        assert(start + all.take(i as int) + seq![all[i as int]] =~= start + all.take(i + 1));
        i += 1;
    }
    assert(all.take(i as int) =~= all);
}

fn add_stale(stale: &Option<Vec<String>>, out: &mut Vec<String>)
    ensures
        texts(final(out)@) == texts(old(out)@) + stale_lines(*stale),
{
    let ghost start = texts(out@);
    if let Some(v) = stale {
        if v.len() == 0 {
            add_line(out, "  installed by this tool · everything current".to_owned());
        } else {
            add_line(out, "  installed by this tool · out of date:".to_owned());
            let ghost head = texts(out@);
            let ghost all = texts(v@).map_values(|s: Seq<char>| "    "@ + s);
            let mut i: usize = 0;
            assert(texts(out@) =~= head + all.take(0));
            while i < v.len()
                invariant
                    i <= v@.len(),
                    all == texts(v@).map_values(|s: Seq<char>| "    "@ + s),
                    texts(out@) == head + all.take(i as int),
                decreases v@.len() - i,
            {
                assert(all[i as int] == "    "@ + v@[i as int]@);
                add_line(out, cat("    ", v[i].as_str()));
                assert(head + all.take(i as int) + seq![all[i as int]] =~= head + all.take(i + 1));
                i += 1;
            }
            assert(all.take(i as int) =~= all);
            assert(texts(out@) =~= start + stale_lines(*stale));
        }
    } else {
        assert(texts(out@) =~= start + stale_lines(*stale));
    }
}

fn lookup_text(l: &Lookup) -> (r: String)
    ensures
        r@ == lookup_line(*l),
{
    match l {
        Lookup::Found(m) => {
            let mut s = cat("  RenoDX HDR mod available: ", m.title.as_str());
            s.append(" -> ");
            s.append(m.file.as_str());
            s.append(" (");
            s.append(m.status_label());
            s.append(")");
            let ghost head = s@;
            if !m.note.as_str().is_empty() {
                let note = cat(" | ", m.note.as_str());
                s.append(note.as_str());
            } else {
                assert(head + Seq::<char>::empty() =~= head);
            }
            s
        },
        Lookup::Nothing => "  RenoDX HDR mod: none for this game".to_owned(),
        Lookup::Failed(e) => cat("  RenoDX lookup failed: ", e.as_str()),
    }
}

/// The lines that a check prints.
pub fn check_lines(exe: &str, st: &GameStatus, c: &CheckFacts) -> (r: Vec<String>)
    ensures
        texts(r@) == check_report(exe@, st, c),
{
    let mut out: Vec<String> = Vec::new();
    assert(texts(out@) =~= Seq::empty());
    add_line(&mut out, status_line(exe, st));
    add_problems(st.problems.as_slice(), &mut out);
    add_line(&mut out, cat("  plan: ", join_with(c.plan.as_slice(), " -> ").as_str()));
    let ghost one = texts(out@);
    if st.re_engine {
        add_line(
            &mut out,
            cat(
                "  RE Engine game: REFramework (dinput8.dll) ",
                if st.reframework {
                    "present"
                } else {
                    "missing, will be installed"
                },
            ),
        );
    }
    let ghost two = texts(out@);
    let names = real_adapters(c.adapters.as_slice());
    if hybrid_from(names.as_slice()) {
        let mut s = cat("  hybrid machine (", join_with(names.as_slice(), ", ").as_str());
        s.append(") · Windows GPU preference for ");
        s.append(short_name(exe).as_str());
        s.append(": ");
        match &c.preference {
            Some(p) => {
                s.append(p.as_str());
            },
            None => {
                s.append("not set");
            },
        }
        add_line(&mut out, s);
    }
    let ghost three = texts(out@);
    add_stale(&c.stale, &mut out);
    let ghost four = texts(out@);
    if let Some(m) = &st.renodx_mod {
        add_line(&mut out, cat("  RenoDX mod installed: ", m.as_str()));
    }
    let ghost five = texts(out@);
    if st.foreign_renodx.len() > 0 {
        add_line(
            &mut out,
            cat(
                "  RenoDX mod present (not installed by this tool): ",
                join_with(st.foreign_renodx.as_slice(), ", ").as_str(),
            ),
        );
    }
    add_line(&mut out, lookup_text(&c.renodx));
    assert(texts(out@) =~= check_report(exe@, st, c));
    out
}

/// What is said when an install is done.
pub fn done_text(engine: Engine) -> (r: &'static str)
    ensures
        r@ == (match engine {
            Engine::Opti => "\nDone. In game: Insert opens the OptiScaler overlay -> enable Neural Rendering (off by default)."@,
            Engine::ReShade => "\nDone. In game: Home opens ReShade -> Add-ons tab -> DLSS 5 Neural Rendering -> enable. (Home tab saying no effect files is normal on games with their own DLSS.)"@,
        }),
{
    match engine {
        Engine::Opti => "\nDone. In game: Insert opens the OptiScaler overlay -> enable Neural Rendering (off by default).",
        Engine::ReShade => "\nDone. In game: Home opens ReShade -> Add-ons tab -> DLSS 5 Neural Rendering -> enable. (Home tab saying no effect files is normal on games with their own DLSS.)",
    }
}

/// The functions of one library that a game imports.
pub open spec fn from_line(dll: Seq<char>, fns: Seq<Seq<char>>) -> Seq<Seq<char>> {
    line_if(fns.len() > 0, "  from "@ + dll + ": "@ + join(fns, ", "@))
}

/// What `--imports` prints of an image.
pub open spec fn imports_report(exe: Seq<char>, api: Api, b: Seq<u8>) -> Seq<Seq<char>> {
    seq![
        exe,
        "  api read as: "@ + api.says(),
        "  imports: "@ + join(crate::pe::import_names(b), ", "@),
    ] + from_line("d3d9.dll"@, crate::pe::import_functions(b, "d3d9.dll"@)) + from_line(
        "d3d11.dll"@,
        crate::pe::import_functions(b, "d3d11.dll"@),
    ) + from_line("d3d12.dll"@, crate::pe::import_functions(b, "d3d12.dll"@)) + from_line(
        "dxgi.dll"@,
        crate::pe::import_functions(b, "dxgi.dll"@),
    )
}

fn add_from(image: &[u8], dll: &str, out: &mut Vec<String>)
    ensures
        texts(final(out)@) == texts(old(out)@) + from_line(
            dll@,
            crate::pe::import_functions(image@, dll@),
        ),
{
    let ghost start = texts(out@);
    let fns = crate::pe::pe_import_fns(image, dll);
    assert(fns@.len() == texts(fns@).len());
    if fns.len() > 0 {
        let mut s = cat("  from ", dll);
        s.append(": ");
        s.append(join_with(fns.as_slice(), ", ").as_str());
        add_line(out, s);
    }
    assert(texts(out@) =~= start + from_line(dll@, crate::pe::import_functions(image@, dll@)));
}

/// The lines that `--imports` prints.
pub fn imports_lines(exe: &str, api: Api, image: &[u8]) -> (r: Vec<String>)
    ensures
        texts(r@) == imports_report(exe@, api, image@),
{
    let mut out: Vec<String> = Vec::new();
    assert(texts(out@) =~= Seq::empty());
    add_line(&mut out, exe.to_owned());
    add_line(&mut out, cat("  api read as: ", api.label()));
    let imports = crate::pe::pe_imports(image);
    add_line(&mut out, cat("  imports: ", join_with(imports.as_slice(), ", ").as_str()));
    add_from(image, "d3d9.dll", &mut out);
    add_from(image, "d3d11.dll", &mut out);
    add_from(image, "d3d12.dll", &mut out);
    add_from(image, "dxgi.dll", &mut out);
    assert(texts(out@) =~= imports_report(exe@, api, image@));
    out
}

/// Where a failure that has no console to print to is recorded.
pub fn error_log_path(local: Option<&str>, temp: &str) -> (r: String)
    ensures
        r@ == joined(own_folder(opt_text(local), temp@), "gui-error.txt"@),
{
    let base = match local {
        Some(l) => path_join(l, "revengine-dlss5"),
        None => path_join(temp, "revengine-dlss5"),
    };
    path_join(base.as_str(), "gui-error.txt")
}

/// What is recorded: the version, so that a report can be matched to a build,
/// and the message.
pub open spec fn error_log(version: Seq<char>, msg: Seq<char>) -> Seq<char> {
    "revengine-dlss5 "@ + version + "\n"@ + msg + "\n"@
}

pub fn error_log_body(version: &str, msg: &str) -> (r: String)
    ensures
        r@ == error_log(version@, msg@),
{
    let mut s = cat("revengine-dlss5 ", version);
    s.append("\n");
    s.append(msg);
    s.append("\n");
    s
}

/// What a panic is recorded as.
pub fn panic_text(place: Option<&str>, what: Option<&str>) -> (r: String)
    ensures
        r@ == "panic at "@ + (match place {
            Some(p) => p@,
            None => "unknown location"@,
        }) + ": "@ + (match what {
            Some(w) => w@,
            None => "panic"@,
        }),
{
    let mut s = cat(
        "panic at ",
        match place {
            Some(p) => p,
            None => "unknown location",
        },
    );
    s.append(": ");
    s.append(match what {
        Some(w) => w,
        None => "panic",
    });
    s
}

/// What the message box says: the window could not open, or the program
/// stopped.
pub fn failure_text(opened: bool, msg: &str, log: &str) -> (r: String)
    ensures
        r@ == (if opened {
            "revengine-dlss5 stopped unexpectedly.\n\n"@
        } else {
            "revengine-dlss5 could not open its window.\n"@
        }) + msg@ + "\n\nWritten to "@ + log@ + "\nAttach that file to a GitHub issue."@,
{
    let mut s = cat(
        if opened {
            "revengine-dlss5 stopped unexpectedly.\n\n"
        } else {
            "revengine-dlss5 could not open its window.\n"
        },
        msg,
    );
    s.append("\n\nWritten to ");
    s.append(log);
    s.append("\nAttach that file to a GitHub issue.");
    s
}

} // verus!
