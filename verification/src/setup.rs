//! The page that sets one game up: what was typed, what it says and what can be
//! done.
use vstd::prelude::*;

use crate::cli::{short, Engine};
use crate::game::{GameStatus, Mode, VULKAN_PROBLEM};
use crate::api::Api;
use crate::numbers::{dec, dec_text};
use crate::paths::{below, list_has_path, path_below, path_eq, path_name, same_path};
use crate::renodx::{status_says, Mod};
use crate::strs::{
    after_first, before_first, cat, join, join_with, opt_string, opt_text, split_once,
    strip_end_char, strip_start_char, texts, texts_push, trim, trim_end_char, trim_start_char,
    trimmed,
};

verus! {

/// The path that was typed: without the spaces and then the quotes around it.
pub open spec fn typed_path(text: Seq<char>) -> Seq<char> {
    trim_start_char(trim_end_char(trim(text), '"'), '"')
}

pub fn input_path(text: &str) -> (r: String)
    ensures
        r@ == typed_path(text@),
{
    let t = trimmed(text);
    let e = strip_end_char(t.as_str(), '"');
    strip_start_char(e.as_str(), '"')
}

/// The executable to set up: the one that was picked before, while it is among
/// several, else the best one.
pub open spec fn picked(
    before: Option<Seq<char>>,
    best: Seq<char>,
    candidates: Seq<Seq<char>>,
) -> Seq<char> {
    match before {
        Some(p) => if candidates.len() > 1 && exists|i: int|
            0 <= i < candidates.len() && same_path(#[trigger] candidates[i], p) {
            p
        } else {
            best
        },
        None => best,
    }
}

pub fn pick_exe(before: Option<&str>, best: &str, candidates: &[String]) -> (r: String)
    ensures
        r@ == picked(opt_text(before), best@, texts(candidates@)),
{
    assert(texts(candidates@).len() == candidates@.len());
    if let Some(p) = before {
        if candidates.len() > 1 && list_has_path(candidates, p) {
            return p.to_owned();
        }
    }
    best.to_owned()
}

/// The game that the page is about, and how far it is known.
#[derive(Debug)]
pub struct Chosen {
    /// The executable, where the path that was typed leads to one.
    pub exe: Option<String>,
    /// The one before, while a path is being resolved.
    pub before: Option<String>,
    pub candidates: Vec<String>,
    pub status: Option<Result<GameStatus, String>>,
    /// The executable that an HDR mod was looked up for.
    pub looked_up: Option<String>,
    /// The HDR mod is to be installed too.
    pub renodx_on: bool,
}

impl Chosen {
    pub fn new() -> (r: Chosen)
        ensures
            r.exe is None && r.before is None && r.candidates@.len() == 0,
            r.status is None && r.looked_up is None && !r.renodx_on,
    {
        Chosen {
            exe: None,
            before: None,
            candidates: Vec::new(),
            status: None,
            looked_up: None,
            renodx_on: false,
        }
    }

    /// A path was typed: the one to resolve. Nothing is known any more, but what
    /// was picked before is remembered. Without a path there is no status.
    pub fn typed(&mut self, text: &str) -> (r: Option<String>)
        ensures
            opt_string(r) == (if typed_path(text@).len() == 0 {
                None
            } else {
                Some(typed_path(text@))
            }),
            final(self).exe is None && final(self).candidates@.len() == 0,
            final(self).before == old(self).exe,
            final(self).status == (if typed_path(text@).len() == 0 {
                None
            } else {
                old(self).status
            }),
            final(self).looked_up == old(self).looked_up,
            final(self).renodx_on == old(self).renodx_on,
    {
        let path = input_path(text);
        self.before = self.exe.take();
        self.candidates = Vec::new();
        if path.as_str().is_empty() {
            self.status = None;
            None
        } else {
            Some(path)
        }
    }

    /// The path was resolved: the executable to read, or why there is none.
    pub fn resolved(&mut self, r: Result<(String, Vec<String>), String>) -> (out: Option<String>)
        ensures
            final(self).before is None,
            final(self).looked_up == old(self).looked_up,
            final(self).renodx_on == old(self).renodx_on,
            match r {
                Ok((best, found)) => {
                    &&& opt_string(out) == Some(
                        picked(opt_string(old(self).before), best@, texts(found@)),
                    )
                    &&& opt_string(final(self).exe) == opt_string(out)
                    &&& final(self).candidates == found
                    &&& final(self).status == old(self).status
                },
                Err(e) => {
                    &&& out is None
                    &&& final(self).exe == old(self).exe
                    &&& final(self).candidates == old(self).candidates
                    &&& final(self).status == Some(Err::<GameStatus, String>(e))
                },
            },
    {
        let before = self.before.take();
        match r {
            Ok((best, found)) => {
                let earlier: Option<&str> = match &before {
                    Some(b) => Some(b.as_str()),
                    None => None,
                };
                let exe = pick_exe(earlier, best.as_str(), found.as_slice());
                self.candidates = found;
                self.exe = Some(exe.clone());
                Some(exe)
            },
            Err(e) => {
                self.status = Some(Err(e));
                None
            },
        }
    }

    /// Another candidate was picked: it is to be read.
    pub fn pick(&mut self, exe: String)
        ensures
            final(self).exe == Some(exe),
            final(self).before == old(self).before,
            final(self).candidates == old(self).candidates,
            final(self).status == old(self).status,
            final(self).looked_up == old(self).looked_up,
            final(self).renodx_on == old(self).renodx_on,
    {
        self.exe = Some(exe);
    }

    /// The executable was read. Is its HDR mod to be looked up? That is done
    /// once for each executable, and what was ticked for another does not count.
    pub fn inspected(&mut self, r: Result<GameStatus, String>) -> (lookup: bool)
        ensures
            lookup == is_due(opt_string(old(self).exe), opt_string(old(self).looked_up)),
            final(self).status == Some(r),
            opt_string(final(self).looked_up) == (if lookup {
                opt_string(old(self).exe)
            } else {
                opt_string(old(self).looked_up)
            }),
            final(self).renodx_on == (old(self).renodx_on && !lookup),
            final(self).exe == old(self).exe,
            final(self).before == old(self).before,
            final(self).candidates == old(self).candidates,
    {
        self.status = Some(r);
        let exe: Option<&str> = match &self.exe {
            Some(e) => Some(e.as_str()),
            None => None,
        };
        let done: Option<&str> = match &self.looked_up {
            Some(e) => Some(e.as_str()),
            None => None,
        };
        let due = lookup_due(exe, done);
        if due {
            self.looked_up = match &self.exe {
                Some(e) => Some(e.clone()),
                None => None,
            };
            self.renodx_on = false;
        }
        due
    }
}

/// How an executable is shown beside the path that was typed.
pub open spec fn shown_name(base: Seq<char>, exe: Seq<char>) -> Seq<char> {
    match below(base, exe) {
        Some(r) => r,
        None => short(exe),
    }
}

pub fn exe_name(base: &str, exe: &str) -> (r: String)
    ensures
        r@ == shown_name(base@, exe@),
{
    if let Some(r) = path_below(base, exe) {
        return r;
    }
    match path_name(exe) {
        Some(n) => n,
        None => {
            let none = String::new();
            assert(none@ =~= Seq::empty());
            none
        },
    }
}

/// The lookup for an executable is due after that for another.
pub open spec fn is_due(exe: Option<Seq<char>>, looked_up: Option<Seq<char>>) -> bool {
    match (exe, looked_up) {
        (Some(a), Some(b)) => !same_path(a, b),
        (None, None) => false,
        _ => true,
    }
}

/// The lookup of the HDR mod is made once for each executable.
pub fn lookup_due(exe: Option<&str>, looked_up: Option<&str>) -> (r: bool)
    ensures
        r == is_due(opt_text(exe), opt_text(looked_up)),
{
    match (exe, looked_up) {
        (Some(a), Some(b)) => !path_eq(a, b),
        (None, None) => false,
        _ => true,
    }
}

/// What stands in the way of an install. A Vulkan game blocks the ReShade
/// engine only; OptiScaler reaches it.
pub open spec fn obstacles(st: Option<Result<GameStatus, String>>, engine: Engine) -> Seq<
    Seq<char>,
> {
    match st {
        Some(Ok(s)) => if engine == Engine::ReShade && s.api == Api::Vulkan {
            texts(s.problems@).push(VULKAN_PROBLEM@)
        } else {
            texts(s.problems@)
        },
        Some(Err(e)) => seq![e@],
        None => Seq::empty(),
    }
}

pub fn problems_for(st: &Option<Result<GameStatus, String>>, engine: Engine) -> (r: Vec<String>)
    ensures
        texts(r@) == obstacles(*st, engine),
{
    broadcast use texts_push;

    let mut out: Vec<String> = Vec::new();
    assert(texts(out@) =~= Seq::empty());
    match st {
        Some(Ok(s)) => {
            let n: usize = s.problems.len();
            let mut i: usize = 0;
            assert(texts(s.problems@).take(0) =~= Seq::empty());
            while i < n
                invariant
                    n == s.problems@.len(),
                    i <= n,
                    texts(out@) == texts(s.problems@).take(i as int),
                decreases n - i,
            {
                broadcast use texts_push;

                assert(texts(s.problems@)[i as int] == s.problems@[i as int]@);
                assert(texts(s.problems@).take(i + 1) =~= texts(s.problems@).take(i as int).push(
                    s.problems@[i as int]@,
                ));
                out.push(s.problems[i].clone());
                i += 1;
            }
            assert(texts(s.problems@).take(i as int) =~= texts(s.problems@));
            if engine == Engine::ReShade {
                if let Some(p) = s.reshade_engine_problem() {
                    out.push(p);
                }
            }
        },
        Some(Err(e)) => {
            out.push(e.clone());
            assert(texts(out@) =~= seq![e@]);
        },
        None => {},
    }
    out
}

/// An install can be started.
pub open spec fn is_startable(
    st: Option<Result<GameStatus, String>>,
    engine: Engine,
    running: bool,
) -> bool {
    (st matches Some(Ok(_))) && obstacles(st, engine).len() == 0 && !running
}

/// The Install button works: the game is known, nothing stands in the way and
/// nothing runs.
pub fn can_run(st: &Option<Result<GameStatus, String>>, engine: Engine, running: bool) -> (r: bool)
    ensures
        r == is_startable(*st, engine, running),
{
    let p = problems_for(st, engine);
    assert(texts(p@).len() == p@.len());
    let known = matches!(st, Some(Ok(_)));
    known && p.len() == 0 && !running
}

/// The facts of a game beside its executable.
pub open spec fn game_facts(st: &GameStatus) -> Seq<char> {
    dec(st.bitness as nat) + "-bit · "@ + st.api.says() + (match st.gpu {
        Some((g, t)) => " · "@ + g.name@ + " ("@ + t.says() + ")"@,
        None => Seq::empty(),
    })
}

pub fn facts_text(st: &GameStatus) -> (r: String)
    ensures
        r@ == game_facts(st),
{
    let mut s = cat(dec_text(st.bitness as u64).as_str(), "-bit · ");
    s.append(st.api.label());
    let ghost head = s@;
    match &st.gpu {
        Some((g, t)) => {
            let mut x = cat(" · ", g.name.as_str());
            x.append(" (");
            x.append(t.label());
            x.append(")");
            s.append(x.as_str());
        },
        None => {
            assert(head + Seq::<char>::empty() =~= head);
        },
    }
    s
}

/// How a choice of the path is called; without one it is what was detected.
pub open spec fn path_says(choice: Option<Mode>, detected: Mode) -> Seq<char> {
    match (choice, detected) {
        (None, Mode::Native) => "Auto: native DLSS · add-on hooks the game"@,
        (None, Mode::Feeder) => "Auto: no DLSS · Feeder path"@,
        (Some(Mode::Native), _) => "Force native DLSS"@,
        (Some(Mode::Feeder), _) => "Force no-DLSS (Feeder)"@,
    }
}

pub fn mode_choice_name(choice: Option<Mode>, detected: Mode) -> (r: &'static str)
    ensures
        r@ == path_says(choice, detected),
{
    match (choice, detected) {
        (None, Mode::Native) => "Auto: native DLSS · add-on hooks the game",
        (None, Mode::Feeder) => "Auto: no DLSS · Feeder path",
        (Some(Mode::Native), _) => "Force native DLSS",
        (Some(Mode::Feeder), _) => "Force no-DLSS (Feeder)",
    }
}

/// What the user takes on by installing beside an anti-cheat.
pub fn anticheat_label(name: &str) -> (r: String)
    ensures
        r@ == name@
            + " is switched off for offline play in this game (GTA V: BattlEye unticked in the Rockstar Games Launcher, or -nobattleye) — install anyway, at my own risk"@,
{
    cat(
        name,
        " is switched off for offline play in this game (GTA V: BattlEye unticked in the Rockstar Games Launcher, or -nobattleye) — install anyway, at my own risk",
    )
}

/// The game has its own DLSS.
pub open spec fn is_native(st: Option<&GameStatus>) -> bool {
    st is Some && st->0.mode == Mode::Native
}

/// The engine that is used, and whether the upstream add-on is, of those that were
/// chosen.
pub open spec fn used(st: Option<&GameStatus>, engine: Engine, upstream: bool) -> (Engine, bool) {
    if is_native(st) {
        (engine, upstream)
    } else {
        (Engine::ReShade, false)
    }
}

/// The engine and the neural add-on that the game can use: without a DLSS of its
/// own only ReShade with the stable add-on works.
pub fn usable(st: Option<&GameStatus>, engine: Engine, upstream: bool) -> (r: (Engine, bool))
    ensures
        r == used(st, engine, upstream),
{
    match st {
        Some(s) if s.mode == Mode::Native => (engine, upstream),
        _ => (Engine::ReShade, false),
    }
}

/// What clicking an engine's card does.
pub fn pill_text(selected: bool, enabled: bool) -> (r: &'static str)
    ensures
        r@ == (if selected {
            "SELECTED"@
        } else if enabled {
            "CHOOSE"@
        } else {
            "UNAVAILABLE"@
        }),
{
    if selected {
        "SELECTED"
    } else if enabled {
        "CHOOSE"
    } else {
        "UNAVAILABLE"
    }
}

/// What the choice of an engine comes to.
pub fn engine_hint(native: bool) -> (r: &'static str)
    ensures
        r@ == (if native {
            "— two ways to run DLSS 5 in this game, pick one"@
        } else {
            "— this game has no DLSS of its own, so only the ReShade path can work"@
        }),
{
    if native {
        "— two ways to run DLSS 5 in this game, pick one"
    } else {
        "— this game has no DLSS of its own, so only the ReShade path can work"
    }
}

/// What the choice of a neural add-on comes to.
pub fn addon_hint(native: bool) -> (r: &'static str)
    ensures
        r@ == (if native {
            "— both run DLSS 5; they differ in where the network runs"@
        } else {
            "— only the stable add-on works in a game with no DLSS of its own"@
        }),
{
    if native {
        "— both run DLSS 5; they differ in where the network runs"
    } else {
        "— only the stable add-on works in a game with no DLSS of its own"
    }
}

/// Why a card cannot be chosen.
pub fn needs_dlss_note(native: bool) -> (r: &'static str)
    ensures
        r@ == (if native {
            ""@
        } else {
            "Needs a game with its own DLSS — this one has none."@
        }),
{
    if native {
        ""
    } else {
        "Needs a game with its own DLSS — this one has none."
    }
}

/// What is known of a RenoDX mod for the game.
#[derive(Debug, Clone)]
pub enum RenodxLookup {
    Idle,
    Pending,
    Found(Mod),
    NotFound,
    Failed(String),
}

/// The line on the HDR mod: a remark, or the offer to install it with remarks.
#[derive(Debug)]
pub enum HdrLine {
    Remark(String),
    Offer { label: String, remarks: Vec<String> },
}

pub enum HdrView {
    Remark(Seq<char>),
    Offer { label: Seq<char>, remarks: Seq<Seq<char>> },
}

impl View for HdrLine {
    type V = HdrView;

    open spec fn view(&self) -> HdrView {
        match *self {
            HdrLine::Remark(s) => HdrView::Remark(s@),
            HdrLine::Offer { label, remarks } => HdrView::Offer {
                label: label@,
                remarks: texts(remarks@),
            },
        }
    }
}

/// A mod of this tool is named first, then a foreign one, then what was looked
/// up.
pub open spec fn hdr_says(st: &GameStatus, l: RenodxLookup, engine: Engine) -> HdrView {
    match st.renodx_mod {
        Some(m) => HdrView::Remark(
            "— installed: "@ + m@ + " (Remove takes it out too)"@,
        ),
        None => if st.foreign_renodx@.len() > 0 {
            HdrView::Remark(
                "— already present, not installed by this tool: "@ + join(
                    texts(st.foreign_renodx@),
                    ", "@,
                ) + " (left untouched; ReShade loads one RenoDX mod per game)"@,
            )
        } else {
            match l {
                RenodxLookup::Idle | RenodxLookup::Pending => HdrView::Remark(
                    "— looking up clshortfuse/renodx for this game…"@,
                ),
                RenodxLookup::NotFound => HdrView::Remark(
                    "— no RenoDX mod is published for this game."@,
                ),
                RenodxLookup::Failed(e) => HdrView::Remark("— lookup failed: "@ + e@),
                RenodxLookup::Found(m) => HdrView::Offer {
                    label: "Also install "@ + m.file@ + " — "@ + status_says(m.status@),
                    remarks: (if engine == Engine::Opti {
                        seq![
                            "— ReShade goes in as ReShade64.dll, loaded by OptiScaler (LoadReshade=true)"@,
                        ]
                    } else {
                        Seq::empty()
                    }) + (if m.note@.len() > 0 {
                        seq!["— "@ + m.note@]
                    } else {
                        Seq::empty()
                    }),
                },
            }
        },
    }
}

pub fn hdr_line(st: &GameStatus, l: &RenodxLookup, engine: Engine) -> (r: HdrLine)
    ensures
        r@ == hdr_says(st, *l, engine),
{
    if let Some(m) = &st.renodx_mod {
        let mut s = cat("— installed: ", m.as_str());
        s.append(" (Remove takes it out too)");
        return HdrLine::Remark(s);
    }
    if st.foreign_renodx.len() > 0 {
        let mut s = cat(
            "— already present, not installed by this tool: ",
            join_with(st.foreign_renodx.as_slice(), ", ").as_str(),
        );
        s.append(" (left untouched; ReShade loads one RenoDX mod per game)");
        return HdrLine::Remark(s);
    }
    match l {
        RenodxLookup::Idle | RenodxLookup::Pending => HdrLine::Remark(
            "— looking up clshortfuse/renodx for this game…".to_owned(),
        ),
        RenodxLookup::NotFound => HdrLine::Remark(
            "— no RenoDX mod is published for this game.".to_owned(),
        ),
        RenodxLookup::Failed(e) => HdrLine::Remark(cat("— lookup failed: ", e.as_str())),
        RenodxLookup::Found(m) => {
            let mut label = cat("Also install ", m.file.as_str());
            label.append(" — ");
            label.append(m.status_label());
            let mut remarks: Vec<String> = Vec::new();
            if engine == Engine::Opti {
                remarks.push(
                    "— ReShade goes in as ReShade64.dll, loaded by OptiScaler (LoadReshade=true)".to_owned(),
                );
            }
            if !m.note.as_str().is_empty() {
                remarks.push(cat("— ", m.note.as_str()));
            }
            assert(texts(remarks@) =~= hdr_says(st, *l, engine)->remarks);
            HdrLine::Offer { label, remarks }
        },
    }
}

/// What stands beside the buttons.
pub open spec fn progress_says(running: bool, msg: Seq<char>, complete: bool) -> Seq<char> {
    if running || msg.len() > 0 {
        msg
    } else if complete {
        "Everything is in place."@
    } else {
        Seq::empty()
    }
}

pub fn progress_text(running: bool, msg: &str, complete: bool) -> (r: String)
    ensures
        r@ == progress_says(running, msg@, complete),
{
    if running || !msg.is_empty() {
        msg.to_owned()
    } else if complete {
        "Everything is in place.".to_owned()
    } else {
        let none = String::new();
        assert(none@ =~= Seq::empty());
        none
    }
}

/// The part of the bar that is filled.
pub open spec fn bar_filled(running: bool, progress: u8, complete: bool) -> u8 {
    if running {
        progress
    } else if progress == 100 || complete {
        100
    } else {
        0
    }
}

/// How much of the bar is filled, in hundredths.
pub fn bar_percent(running: bool, progress: u8, complete: bool) -> (r: u8)
    ensures
        r == bar_filled(running, progress, complete),
{
    if running {
        progress
    } else if progress == 100 || complete {
        100
    } else {
        0
    }
}

/// The number of a step and its name, which the log shows apart.
pub fn step_parts(line: &str) -> (r: (String, String))
    ensures
        match after_first(line@, " "@) {
            Some(rest) => r.0@ == before_first(line@, " "@) && r.1@ == rest,
            None => r.0@.len() == 0 && r.1@ == line@,
        },
{
    match split_once(line, " ") {
        Some((a, b)) => (a, b),
        None => (String::new(), line.to_owned()),
    }
}

} // verus!
