//! Read the logs a session leaves behind and say why neural rendering is or is
//! not running. Answers the commonest report ("I enabled it, nothing changed")
//! without a round trip: everything needed is already in `ReShade.log` and, on
//! the Feeder path, `dlss5-feed.log` next to the game exe.
use vstd::prelude::*;

use crate::api::Api;
use crate::chars::{chars_of, digit, is_digit, lower, lower_string};
use crate::game::{inspect, Found, GameStatus, InspectError, Mode};
use crate::gpupref::{cards, hybrid_from, is_high_performance, is_hybrid, prefers, real_adapters};
use crate::messages::{
    BRIDGE_RUNS, BRIDGE_STOPPED, COMPILER_1, COMPILER_2, CRASHED, CURRENT_FEEDER, DELIVERED,
    DLSS_OFF, ENTRY_FAILED, FEED_READY, FEED_STOPPED, HOST_READY, HYBRID_1, HYBRID_2, HYBRID_3,
    HYBRID_SET, INVALID_REDIST, LOADED, NEEDS_BRIDGE, NGX_1, NGX_2, NGX_3, NGX_BROKEN, NGX_FINE,
    NOT_COMPILING, NOT_REGISTERED, NO_DLSS, NO_FEED, NO_HOST_LOG, NO_LOG, NO_PROVIDER, NO_REDIST,
    OLD_COMPILER, OLD_FEEDER_1, OLD_FEEDER_2, OLD_FEEDER_3, OTHER_EXE_1, OTHER_EXE_2, OTHER_EXE_3,
    OTHER_EXE_4, RAN, REDIST_1, REDIST_2, REDIST_3, REFUSED, REFUSES_UNSIGNED, REGISTERED, SAW_DLSS,
    TOGGLED_OFF, TOGGLED_ON, ZERO_VECTORS,
};
use crate::numbers::{parse_u64, parsed_u64};
use crate::paths::{name_of, path_name};
use crate::strs::{
    after_first, after_last, before_first, cat, contains, cut_after_first, cut_after_last,
    cut_before_first, find_line, first_line, holding, join, join_with, last_line, last_line_with,
    lines, lines_of, occurs, opt_string, pieces, replace_char, replaced, split_char, split_words,
    starts, starts_with, str_eq, strip_end_char, texts, trim, trim_end_char, trimmed, words,
};

verus! {

#[derive(Debug, Clone, Copy, PartialEq, Eq, Structural)]
pub enum Level {
    Fine,
    Warn,
    Bad,
}

#[derive(Debug, Clone)]
pub struct Finding {
    pub level: Level,
    pub text: String,
}

/// How bad, and what.
pub type Note = (Level, Seq<char>);

impl View for Finding {
    type V = Note;

    open spec fn view(&self) -> Note {
        (self.level, self.text@)
    }
}

pub open spec fn notes(v: Seq<Finding>) -> Seq<Note> {
    v.map_values(|f: Finding| f@)
}

pub open spec fn good(t: Seq<char>) -> Seq<Note> {
    seq![(Level::Fine, t)]
}

pub open spec fn doubtful(t: Seq<char>) -> Seq<Note> {
    seq![(Level::Warn, t)]
}

pub open spec fn wrong(t: Seq<char>) -> Seq<Note> {
    seq![(Level::Bad, t)]
}

/// Nothing to say.
pub open spec fn silent() -> Seq<Note> {
    Seq::empty()
}

/// The model that is installed in one of the two places.
#[derive(Debug)]
pub struct ModelFile {
    /// Its version, where it has one.
    pub version: Option<String>,
    /// What is known of that build.
    pub build: String,
}

/// What a session has left behind, and what the machine says.
#[derive(Debug)]
pub struct Logs {
    /// The game ships its own `d3dcompiler_47.dll`, and of which version.
    pub compiler: bool,
    pub compiler_version: Option<String>,
    /// The model beside the exe, and in the folder of the DLSS 5 add-on.
    pub model_here: Option<ModelFile>,
    pub model_there: Option<ModelFile>,
    /// `ReShade.log`, and `ReShade2.log`.
    pub reshade: Option<String>,
    pub reshade2: Option<String>,
    /// `dlss5-bridge.log`.
    pub bridge: Option<String>,
    /// `dlss5-feed.log`, and `host64\dlss5-feed-host.log`.
    pub feed: Option<String>,
    pub host: Option<String>,
    /// Where the game carries its own Agility SDK, and of which version.
    pub redist: Option<String>,
    pub redist_version: Option<String>,
    /// The machine's display adapters.
    pub adapters: Vec<String>,
    /// The GPU preference of the game, and of the 64-bit helper.
    pub exe_preference: Option<String>,
    pub host_preference: Option<String>,
    /// What the system says about NGX Core.
    pub ngx_system: String,
    pub ngx_healthy: bool,
}

/// A text, or `other` where there is none.
pub open spec fn text_or(o: Option<String>, other: Seq<char>) -> Seq<char> {
    match o {
        Some(s) => s@,
        None => other,
    }
}

fn text_or_else(o: &Option<String>, other: &str) -> (r: String)
    ensures
        r@ == text_or(*o, other@),
{
    match o {
        Some(s) => s.clone(),
        None => other.to_owned(),
    }
}

fn add_note(out: &mut Vec<Finding>, level: Level, text: &str)
    ensures
        notes(final(out)@) == notes(old(out)@) + seq![(level, text@)],
{
    let f = Finding { level, text: text.to_owned() };
    let ghost before = out@;
    out.push(f);
    assert(notes(out@) =~= notes(before) + seq![(level, text@)]);
}

fn ok(out: &mut Vec<Finding>, text: &str)
    ensures
        notes(final(out)@) == notes(old(out)@) + good(text@),
{
    add_note(out, Level::Fine, text);
}

fn warn(out: &mut Vec<Finding>, text: &str)
    ensures
        notes(final(out)@) == notes(old(out)@) + doubtful(text@),
{
    add_note(out, Level::Warn, text);
}

fn bad(out: &mut Vec<Finding>, text: &str)
    ensures
        notes(final(out)@) == notes(old(out)@) + wrong(text@),
{
    add_note(out, Level::Bad, text);
}

/// The lines in which NGX itself refused to initialise.
pub open spec fn ngx_refusals() -> spec_fn(Seq<char>) -> bool {
    |l: Seq<char>| occurs(l, "NVSDK_NGX"@) && occurs(l, "Init"@) && occurs(l, "0xBAD00001"@)
}

/// What is said of a machine with more than one GPU vendor.
pub open spec fn hybrid_text(names: Seq<Seq<char>>, set: bool) -> Seq<char> {
    HYBRID_1@ + join(names, ", "@) + HYBRID_2@ + (if set {
        HYBRID_SET@
    } else {
        ""@
    }) + HYBRID_3@
}

pub open spec fn ngx_text(line: Seq<char>, l: &Logs) -> Seq<char> {
    NGX_1@ + trim(line) + NGX_2@ + l.ngx_system@ + NGX_3@ + (if l.ngx_healthy {
        NGX_FINE@
    } else {
        NGX_BROKEN@
    })
}

/// NGX refused in a log: on a machine with more than one GPU vendor the
/// preference of the program is worth naming, because started on the integrated
/// GPU it gets exactly this error; then what the system says about NGX.
pub open spec fn ngx_part(log: Seq<char>, preference: Option<String>, l: &Logs) -> Seq<Note> {
    match first_line(log, ngx_refusals()) {
        Some(line) => {
            let names = cards(texts(l.adapters@));
            let set = match preference {
                Some(p) => prefers(p@),
                None => false,
            };
            (if is_hybrid(names) {
                wrong(hybrid_text(names, set))
            } else {
                silent()
            }) + wrong(ngx_text(line, l))
        },
        None => silent(),
    }
}

fn ngx_init_failure_for(log: &str, preference: &Option<String>, l: &Logs, out: &mut Vec<Finding>)
    ensures
        notes(final(out)@) == notes(old(out)@) + ngx_part(log@, *preference, l),
{
    let ghost start = notes(out@);
    let refused = |s: &str| -> (b: bool)
        ensures
            b == ngx_refusals()(s@),
        {
            contains(s, "NVSDK_NGX") && contains(s, "Init") && contains(s, "0xBAD00001")
        };
    let line = match find_line(log, refused, Ghost(ngx_refusals())) {
        Some(s) => s,
        None => {
            assert(notes(out@) =~= start + silent());
            return;
        },
    };
    let names = real_adapters(l.adapters.as_slice());
    if hybrid_from(names.as_slice()) {
        let set = match preference {
            Some(p) => is_high_performance(p.as_str()),
            None => false,
        };
        let mut s = cat(HYBRID_1, join_with(names.as_slice(), ", ").as_str());
        s.append(HYBRID_2);
        s.append(if set {
            HYBRID_SET
        } else {
            ""
        });
        s.append(HYBRID_3);
        bad(out, s.as_str());
    }
    let ghost between = notes(out@);
    let mut s = cat(NGX_1, trimmed(line.as_str()).as_str());
    s.append(NGX_2);
    s.append(l.ngx_system.as_str());
    s.append(NGX_3);
    s.append(if l.ngx_healthy {
        NGX_FINE
    } else {
        NGX_BROKEN
    });
    bad(out, s.as_str());
    assert(notes(out@) =~= start + ngx_part(log@, *preference, l));
}

/// The numbers of a version; what is no number counts as 0.
pub open spec fn version_numbers(v: Seq<char>) -> Seq<u64> {
    pieces(replace_char(v, '-', "."@), '.').map_values(
        |p: Seq<char>|
            match parsed_u64(p) {
                Some(n) => n,
                None => 0u64,
            },
    )
}

pub fn version_key(v: &str) -> (r: Vec<u64>)
    ensures
        r@ == version_numbers(v@),
{
    let dotted = replaced(v, '-', ".");
    let parts = split_char(dotted.as_str(), '.');
    let ghost all = version_numbers(v@);
    let mut out: Vec<u64> = Vec::new();
    let mut i: usize = 0;
    assert(out@ =~= all.take(0));
    while i < parts.len()
        invariant
            i <= parts@.len(),
            texts(parts@) == pieces(replace_char(v@, '-', "."@), '.'),
            all == version_numbers(v@),
            out@ == all.take(i as int),
        decreases parts@.len() - i,
    {
        assert(texts(parts@)[i as int] == parts@[i as int]@);
        assert(all.take(i + 1) =~= all.take(i as int).push(all[i as int]));
        match parse_u64(parts[i].as_str()) {
            Some(n) => {
                out.push(n);
            },
            None => {
                out.push(0);
            },
        }
        i += 1;
    }
    assert(all.take(i as int) =~= all);
    out
}

/// `a` stands before `b`, by the first number in which they differ from `i` on;
/// what ends first stands first.
pub open spec fn older_from(a: Seq<u64>, b: Seq<u64>, i: int) -> bool
    decreases b.len() - i,
{
    if i < 0 || i >= b.len() {
        false
    } else if i >= a.len() {
        true
    } else if a[i] != b[i] {
        a[i] < b[i]
    } else {
        older_from(a, b, i + 1)
    }
}

/// One version is older than another.
pub open spec fn is_older(a: Seq<char>, b: Seq<char>) -> bool {
    older_from(version_numbers(a), version_numbers(b), 0)
}

pub fn older(a: &str, b: &str) -> (r: bool)
    ensures
        r == is_older(a@, b@),
{
    let x = version_key(a);
    let y = version_key(b);
    let mut i: usize = 0;
    while i < y.len()
        invariant
            x@ == version_numbers(a@),
            y@ == version_numbers(b@),
            i <= x@.len(),
            i <= y@.len(),
            is_older(a@, b@) == older_from(x@, y@, i as int),
        decreases y@.len() - i,
    {
        if i >= x.len() {
            return true;
        }
        if x[i] != y[i] {
            return x[i] < y[i];
        }
        i += 1;
    }
    false
}

/// The lines that name the program that ReShade was loaded into.
pub open spec fn load_lines() -> spec_fn(Seq<char>) -> bool {
    |l: Seq<char>| occurs(l, "loaded from"@) && occurs(l, " into "@)
}

/// The program that such a line names: what is quoted after the first " into ".
pub open spec fn loaded_into(line: Seq<char>) -> Option<Seq<char>> {
    match after_first(line, " into "@) {
        Some(rest) => {
            let quoted = pieces(before_first(rest, " into "@), '\'');
            if quoted.len() > 1 {
                name_of(quoted[1])
            } else {
                None
            }
        },
        None => None,
    }
}

/// The program that ReShade was loaded into, by its log.
pub open spec fn host_exe(log: Seq<char>) -> Option<Seq<char>> {
    match first_line(log, load_lines()) {
        Some(l) => loaded_into(l),
        None => None,
    }
}

/// The exe ReShade actually loaded into, from its first line:
/// `... loaded from '...dxgi.dll' into 'C:\...\game.exe' (0x...)`.
pub fn reshade_host_exe(log: &str) -> (r: Option<String>)
    ensures
        opt_string(r) == host_exe(log@),
{
    let names_it = |s: &str| -> (b: bool)
        ensures
            b == load_lines()(s@),
        {
            contains(s, "loaded from") && contains(s, " into ")
        };
    let line = match find_line(log, names_it, Ghost(load_lines())) {
        Some(l) => l,
        None => {
            return None;
        },
    };
    match cut_after_first(line.as_str(), " into ") {
        Some(rest) => {
            let part = cut_before_first(rest.as_str(), " into ");
            let quoted = split_char(part.as_str(), '\'');
            assert(quoted@.len() == texts(quoted@).len());
            if quoted.len() > 1 {
                assert(texts(quoted@)[1] == quoted@[1]@);
                path_name(quoted[1].as_str())
            } else {
                None
            }
        },
        None => None,
    }
}

/// A game's own HLSL compiler shadows the system's, and an old one cannot
/// compile the neural pass.
pub open spec fn compiler_part(l: &Logs) -> Seq<Note> {
    if l.compiler {
        doubtful(COMPILER_1@ + text_or(l.compiler_version, "unknown"@) + COMPILER_2@)
    } else {
        silent()
    }
}

/// Which neural model is installed: the one beside the exe, else the one in the
/// add-on's folder.
pub open spec fn model_part(l: &Logs) -> Seq<Note> {
    match (l.model_here, l.model_there) {
        (Some(m), _) => model_note(m, "beside the exe"@),
        (None, Some(m)) => model_note(m, "in host64"@),
        (None, None) => silent(),
    }
}

pub open spec fn model_note(m: ModelFile, place: Seq<char>) -> Seq<Note> {
    match m.version {
        Some(v) => good("DLSS 5 model "@ + place + ": "@ + v@ + " — "@ + m.build@),
        None => silent(),
    }
}

fn say_model(m: &ModelFile, place: &str, out: &mut Vec<Finding>)
    ensures
        notes(final(out)@) == notes(old(out)@) + model_note(*m, place@),
{
    let ghost start = notes(out@);
    match &m.version {
        Some(v) => {
            let mut s = cat("DLSS 5 model ", place);
            s.append(": ");
            s.append(v.as_str());
            s.append(" — ");
            s.append(m.build.as_str());
            ok(out, s.as_str());
        },
        None => {
            assert(notes(out@) =~= start + silent());
        },
    }
}

fn say_files(l: &Logs, out: &mut Vec<Finding>)
    ensures
        notes(final(out)@) == notes(old(out)@) + compiler_part(l) + model_part(l),
{
    let ghost start = notes(out@);
    if l.compiler {
        let mut s = cat(COMPILER_1, text_or_else(&l.compiler_version, "unknown").as_str());
        s.append(COMPILER_2);
        warn(out, s.as_str());
    }
    assert(notes(out@) =~= start + compiler_part(l));
    match (&l.model_here, &l.model_there) {
        (Some(m), _) => {
            say_model(m, "beside the exe", out);
        },
        (None, Some(m)) => {
            say_model(m, "in host64", out);
        },
        (None, None) => {
            assert(notes(out@) =~= start + compiler_part(l) + silent());
        },
    }
}

/// The lines in which ReShade refused the DLSS 5 add-on.
pub open spec fn addon_failures() -> spec_fn(Seq<char>) -> bool {
    |l: Seq<char>| occurs(l, "Failed to load add-on"@) && occurs(l, "renodx-dlss5"@)
}

/// The error code at the end of such a line.
pub open spec fn error_code(line: Seq<char>) -> Seq<char> {
    trim_end_char(after_last(line, "error code "@), '!')
}

/// What an error code means, where that is known.
pub open spec fn code_meaning(code: Seq<char>) -> Seq<char> {
    if trim(code) == "2148073478"@ {
        REFUSES_UNSIGNED@
    } else if trim(code) == "1114"@ {
        ENTRY_FAILED@
    } else {
        ""@
    }
}

/// Did the add-on register with ReShade?
pub open spec fn addon_part(rs: Seq<char>) -> Seq<Note> {
    match first_line(rs, addon_failures()) {
        Some(line) => wrong(REFUSED@ + error_code(line) + code_meaning(error_code(line)) + "."@),
        None => if occurs(rs, "DLSS 5 Neural Rendering"@) {
            good(REGISTERED@)
        } else {
            wrong(NOT_REGISTERED@)
        },
    }
}

pub open spec fn toggle_part(rs: Seq<char>) -> Seq<Note> {
    if occurs(rs, "NR toggled OFF"@) {
        doubtful(TOGGLED_OFF@)
    } else if occurs(rs, "NR toggled ON"@) {
        good(TOGGLED_ON@)
    } else {
        silent()
    }
}

/// Did the model run? Where not, what the add-on saw of the game's DLSS says
/// why: a game on Direct3D 11 calls entry points that only the bridge sees.
pub open spec fn model_runs_part(st: &GameStatus, rs: Seq<char>) -> Seq<Note> {
    if occurs(rs, "inline feature 18 evaluation succeeded"@) {
        good(RAN@)
    } else if occurs(rs, "feature=1 (DLSS/DLAA)"@) {
        doubtful(SAW_DLSS@)
    } else if st.mode == Mode::Native {
        if st.api == Api::Dx11 && !st.bridge {
            wrong(NEEDS_BRIDGE@)
        } else {
            wrong(DLSS_OFF@)
        }
    } else {
        silent()
    }
}

/// The lines in which the neural pass did not compile.
pub open spec fn compile_failures() -> spec_fn(Seq<char>) -> bool {
    |l: Seq<char>| occurs(l, "X3506"@) || occurs(l, "unrecognized compiler target"@)
}

pub open spec fn compile_part(rs: Seq<char>) -> Seq<Note> {
    match first_line(rs, compile_failures()) {
        Some(line) => wrong(trim(line) + OLD_COMPILER@),
        None => silent(),
    }
}

/// A game with more than one executable can be installed for one and played
/// through another: ReShade loads, everything looks right, nothing is hooked.
pub open spec fn other_exe_part(exe: Seq<char>, rs: Seq<char>) -> Seq<Note> {
    match (host_exe(rs), name_of(exe)) {
        (Some(loaded), Some(ours)) => if lower(ours) != lower(loaded) {
            doubtful(
                OTHER_EXE_1@ + loaded + OTHER_EXE_2@ + ours + OTHER_EXE_3@ + loaded + OTHER_EXE_4@,
            )
        } else {
            silent()
        },
        _ => silent(),
    }
}

/// What ReShade's log says.
pub open spec fn reshade_part(st: &GameStatus, rs: Seq<char>) -> Seq<Note> {
    (if occurs(rs, "Initializing crosire's ReShade"@) {
        good(LOADED@)
    } else {
        silent()
    }) + addon_part(rs) + toggle_part(rs) + model_runs_part(st, rs) + compile_part(rs)
        + other_exe_part(st.exe@, rs)
}

fn say_addon(rs: &str, out: &mut Vec<Finding>)
    ensures
        notes(final(out)@) == notes(old(out)@) + addon_part(rs@),
{
    let failed = |s: &str| -> (b: bool)
        ensures
            b == addon_failures()(s@),
        {
            contains(s, "Failed to load add-on") && contains(s, "renodx-dlss5")
        };
    match find_line(rs, failed, Ghost(addon_failures())) {
        Some(line) => {
            let tail = cut_after_last(line.as_str(), "error code ");
            let code = strip_end_char(tail.as_str(), '!');
            let plain = trimmed(code.as_str());
            let meaning = if str_eq(plain.as_str(), "2148073478") {
                REFUSES_UNSIGNED
            } else if str_eq(plain.as_str(), "1114") {
                ENTRY_FAILED
            } else {
                ""
            };
            let mut s = cat(REFUSED, code.as_str());
            s.append(meaning);
            s.append(".");
            bad(out, s.as_str());
        },
        None => {
            if contains(rs, "DLSS 5 Neural Rendering") {
                ok(out, REGISTERED);
            } else {
                bad(out, NOT_REGISTERED);
            }
        },
    }
}

fn say_model_runs(st: &GameStatus, rs: &str, out: &mut Vec<Finding>)
    ensures
        notes(final(out)@) == notes(old(out)@) + toggle_part(rs@) + model_runs_part(st, rs@),
{
    let ghost start = notes(out@);
    if contains(rs, "NR toggled OFF") {
        warn(out, TOGGLED_OFF);
    } else if contains(rs, "NR toggled ON") {
        ok(out, TOGGLED_ON);
    }
    assert(notes(out@) =~= start + toggle_part(rs@));
    let ghost between = notes(out@);
    if contains(rs, "inline feature 18 evaluation succeeded") {
        ok(out, RAN);
    } else if contains(rs, "feature=1 (DLSS/DLAA)") {
        warn(out, SAW_DLSS);
    } else if st.mode == Mode::Native {
        if st.api == Api::Dx11 && !st.bridge {
            bad(out, NEEDS_BRIDGE);
        } else {
            bad(out, DLSS_OFF);
        }
    }
    assert(notes(out@) =~= between + model_runs_part(st, rs@));
}

fn say_other_exe(exe: &str, rs: &str, out: &mut Vec<Finding>)
    ensures
        notes(final(out)@) == notes(old(out)@) + other_exe_part(exe@, rs@),
{
    let ghost start = notes(out@);
    if let (Some(loaded), Some(ours)) = (reshade_host_exe(rs), path_name(exe)) {
        let a = lower_string(ours.as_str());
        let b = lower_string(loaded.as_str());
        if !str_eq(a.as_str(), b.as_str()) {
            let mut s = cat(OTHER_EXE_1, loaded.as_str());
            s.append(OTHER_EXE_2);
            s.append(ours.as_str());
            s.append(OTHER_EXE_3);
            s.append(loaded.as_str());
            s.append(OTHER_EXE_4);
            warn(out, s.as_str());
        }
    }
    assert(notes(out@) =~= start + other_exe_part(exe@, rs@));
}

fn say_reshade(st: &GameStatus, rs: &str, out: &mut Vec<Finding>)
    ensures
        notes(final(out)@) == notes(old(out)@) + reshade_part(st, rs@),
{
    let ghost start = notes(out@);
    if contains(rs, "Initializing crosire's ReShade") {
        ok(out, LOADED);
    }
    let ghost loaded = notes(out@);
    say_addon(rs, out);
    say_model_runs(st, rs, out);
    let ghost before = notes(out@);
    let failed = |s: &str| -> (b: bool)
        ensures
            b == compile_failures()(s@),
        {
            contains(s, "X3506") || contains(s, "unrecognized compiler target")
        };
    if let Some(line) = find_line(rs, failed, Ghost(compile_failures())) {
        let s = cat(trimmed(line.as_str()).as_str(), OLD_COMPILER);
        bad(out, s.as_str());
    }
    assert(notes(out@) =~= before + compile_part(rs@));
    say_other_exe(st.exe.as_str(), rs, out);
    assert(notes(out@) =~= start + reshade_part(st, rs@));
}

/// What is known of the Agility SDK that the game declares.
pub open spec fn redist_text(l: &Logs) -> Seq<char> {
    match l.redist {
        Some(p) => REDIST_1@ + p@ + REDIST_2@ + text_or(l.redist_version, "unknown"@) + REDIST_3@,
        None => NO_REDIST@,
    }
}

pub open spec fn stop_part(log: Seq<char>) -> Seq<Note> {
    match last_line(log, holding("stopped:"@)) {
        Some(line) => wrong(BRIDGE_STOPPED@ + trim(line)),
        None => silent(),
    }
}

pub open spec fn device_part(log: Seq<char>, l: &Logs) -> Seq<Note> {
    match first_line(log, holding("D3D12CreateDevice failed 0x887E0003"@)) {
        Some(line) => wrong(trim(line) + INVALID_REDIST@ + redist_text(l)),
        None => if occurs(log, "frames:"@) && !occurs(log, "session failed"@) {
            good(BRIDGE_RUNS@)
        } else {
            silent()
        },
    }
}

/// What the log of the DX11 bridge says.
pub open spec fn bridge_part(l: &Logs) -> Seq<Note> {
    match l.bridge {
        Some(b) => stop_part(b@) + device_part(b@, l),
        None => silent(),
    }
}

fn say_bridge(l: &Logs, out: &mut Vec<Finding>)
    ensures
        notes(final(out)@) == notes(old(out)@) + bridge_part(l),
{
    let ghost start = notes(out@);
    if let Some(b) = &l.bridge {
        let log = b.as_str();
        if let Some(line) = last_line_with(log, "stopped:") {
            let s = cat(BRIDGE_STOPPED, trimmed(line.as_str()).as_str());
            bad(out, s.as_str());
        }
        assert(notes(out@) =~= start + stop_part(b@));
        let ghost between = notes(out@);
        let refused = |s: &str| -> (b: bool)
            ensures
                b == holding("D3D12CreateDevice failed 0x887E0003"@)(s@),
            {
                contains(s, "D3D12CreateDevice failed 0x887E0003")
            };
        match find_line(log, refused, Ghost(holding("D3D12CreateDevice failed 0x887E0003"@))) {
            Some(line) => {
                let place = match &l.redist {
                    Some(p) => {
                        let mut s = cat(REDIST_1, p.as_str());
                        s.append(REDIST_2);
                        s.append(text_or_else(&l.redist_version, "unknown").as_str());
                        s.append(REDIST_3);
                        s
                    },
                    None => NO_REDIST.to_owned(),
                };
                let mut s = cat(trimmed(line.as_str()).as_str(), INVALID_REDIST);
                s.append(place.as_str());
                bad(out, s.as_str());
            },
            None => {
                if contains(log, "frames:") && !contains(log, "session failed") {
                    ok(out, BRIDGE_RUNS);
                }
            },
        }
        assert(notes(out@) =~= between + device_part(b@, l));
    }
    assert(notes(out@) =~= start + bridge_part(l));
}

/// What the Feeder built and delivered.
pub open spec fn feed_state_part(fd: Seq<char>) -> Seq<Note> {
    (if occurs(fd, "feature ready"@) {
        good(FEED_READY@)
    } else {
        silent()
    }) + (if occurs(fd, "frame"@) && occurs(fd, "delivered"@) {
        good(DELIVERED@)
    } else {
        silent()
    }) + (if occurs(fd, "technique MISSING"@) && !occurs(fd, "technique found"@) {
        wrong(NOT_COMPILING@)
    } else {
        silent()
    })
}

/// The last line on the effects describes the running state; the first of a
/// session always says that there are none.
pub open spec fn provider_part(fd: Seq<char>) -> Seq<Note> {
    match last_line(fd, holding("[feed] effects:"@)) {
        Some(l) => if occurs(l, "-> none (not installed)"@) {
            wrong(NO_PROVIDER@)
        } else {
            silent()
        },
        None => silent(),
    }
}

/// 32-bit games: the work happens in `host64\`, and its own log names the
/// reason.
pub open spec fn host_part(st: &GameStatus, l: &Logs) -> Seq<Note> {
    match l.host {
        Some(hl) => (if occurs(hl@, "feature ready"@) {
            good(HOST_READY@)
        } else {
            silent()
        }) + ngx_part(hl@, l.host_preference, l),
        None => if st.bitness == 32 {
            doubtful(NO_HOST_LOG@)
        } else {
            silent()
        },
    }
}

/// The word after the first that names the Feeder, from `i` on.
pub open spec fn version_after(w: Seq<Seq<char>>, i: int) -> Option<Seq<char>>
    decreases w.len() - i,
{
    if i < 0 || i >= w.len() {
        None
    } else if starts(w[i], "dlss5-feed"@) {
        if i + 1 < w.len() {
            Some(w[i + 1])
        } else {
            None
        }
    } else {
        version_after(w, i + 1)
    }
}

/// The Feeder's version, by the first line of its log: "HH:MM:SS.mmm
/// dlss5-feed 0.12.0 (built ...) attached."
pub open spec fn feeder_version(fd: Seq<char>) -> Option<Seq<char>> {
    if lines(fd).len() > 0 {
        match version_after(words(lines(fd)[0]), 0) {
            Some(v) => if v.len() > 0 && is_digit(v[0]) {
                Some(v)
            } else {
                None
            },
            None => None,
        }
    } else {
        None
    }
}

pub open spec fn old_feeder_part(fd: Seq<char>) -> Seq<Note> {
    match feeder_version(fd) {
        Some(v) => if is_older(v, CURRENT_FEEDER@) {
            doubtful(OLD_FEEDER_1@ + v + OLD_FEEDER_2@ + CURRENT_FEEDER@ + OLD_FEEDER_3@)
        } else {
            silent()
        },
        None => silent(),
    }
}

pub open spec fn feed_stop_part(fd: Seq<char>) -> Seq<Note> {
    match last_line(fd, holding("stopped:"@)) {
        Some(line) => wrong(FEED_STOPPED@ + trim(line)),
        None => silent(),
    }
}

/// What went wrong in the Feeder.
pub open spec fn feed_trouble_part(fd: Seq<char>) -> Seq<Note> {
    (if occurs(fd, "MV probe"@) && occurs(fd, "0% non-zero"@) {
        wrong(ZERO_VECTORS@)
    } else {
        silent()
    }) + (if occurs(fd, "DLSS super sampling is not available"@) {
        wrong(NO_DLSS@)
    } else {
        silent()
    }) + feed_stop_part(fd) + (if occurs(fd, "CRASH RECORDED"@) {
        doubtful(CRASHED@)
    } else {
        silent()
    })
}

/// What the log of the Feeder says.
pub open spec fn feed_part(st: &GameStatus, l: &Logs) -> Seq<Note> {
    if st.mode != Mode::Feeder {
        silent()
    } else {
        match l.feed {
            Some(fd) => feed_state_part(fd@) + provider_part(fd@) + ngx_part(
                fd@,
                l.exe_preference,
                l,
            ) + host_part(st, l) + old_feeder_part(fd@) + feed_trouble_part(fd@),
            None => wrong(NO_FEED@),
        }
    }
}

fn say_feed_state(fd: &str, out: &mut Vec<Finding>)
    ensures
        notes(final(out)@) == notes(old(out)@) + feed_state_part(fd@) + provider_part(fd@),
{
    let ghost start = notes(out@);
    if contains(fd, "feature ready") {
        ok(out, FEED_READY);
    }
    let ghost one = notes(out@);
    if contains(fd, "frame") && contains(fd, "delivered") {
        ok(out, DELIVERED);
    }
    let ghost two = notes(out@);
    if contains(fd, "technique MISSING") && !contains(fd, "technique found") {
        bad(out, NOT_COMPILING);
    }
    assert(notes(out@) =~= start + feed_state_part(fd@));
    let ghost three = notes(out@);
    if let Some(l) = last_line_with(fd, "[feed] effects:") {
        if contains(l.as_str(), "-> none (not installed)") {
            bad(out, NO_PROVIDER);
        }
    }
    assert(notes(out@) =~= three + provider_part(fd@));
}

fn say_host(st: &GameStatus, l: &Logs, out: &mut Vec<Finding>)
    ensures
        notes(final(out)@) == notes(old(out)@) + host_part(st, l),
{
    let ghost start = notes(out@);
    match &l.host {
        Some(hl) => {
            if contains(hl.as_str(), "feature ready") {
                ok(out, HOST_READY);
            }
            let ghost one = notes(out@);
            ngx_init_failure_for(hl.as_str(), &l.host_preference, l, out);
        },
        None => {
            if st.is32() {
                warn(out, NO_HOST_LOG);
            }
        },
    }
    assert(notes(out@) =~= start + host_part(st, l));
}

fn find_version(fd: &str) -> (r: Option<String>)
    ensures
        opt_string(r) == feeder_version(fd@),
{
    let ls = lines_of(fd);
    assert(ls@.len() == lines(fd@).len());
    if ls.len() == 0 {
        return None;
    }
    assert(lines(fd@)[0] == ls@[0]@);
    let w = split_words(ls[0].as_str());
    let ghost all = words(ls@[0]@);
    let n: usize = w.len();
    assert(all.len() == n);
    let mut i: usize = 0;
    while i < n
        invariant
            n == w@.len(),
            i <= n,
            all == texts(w@),
            all.len() == n,
            feeder_version(fd@) == (match version_after(all, 0) {
                Some(v) => if v.len() > 0 && is_digit(v[0]) {
                    Some(v)
                } else {
                    None
                },
                None => None,
            }),
            version_after(all, 0) == version_after(all, i as int),
        decreases n - i,
    {
        assert(all[i as int] == w@[i as int]@);
        if starts_with(w[i].as_str(), "dlss5-feed") {
            if i + 1 < n {
                assert(all[i + 1] == w@[i + 1]@);
                let v = &w[i + 1];
                let x = chars_of(v.as_str());
                if x.len() > 0 && digit(x[0]) {
                    return Some(v.clone());
                }
            }
            return None;
        }
        i += 1;
    }
    None
}

fn say_feed_trouble(fd: &str, out: &mut Vec<Finding>)
    ensures
        notes(final(out)@) == notes(old(out)@) + old_feeder_part(fd@) + feed_trouble_part(fd@),
{
    let ghost start = notes(out@);
    if let Some(v) = find_version(fd) {
        if older(v.as_str(), CURRENT_FEEDER) {
            let mut s = cat(OLD_FEEDER_1, v.as_str());
            s.append(OLD_FEEDER_2);
            s.append(CURRENT_FEEDER);
            s.append(OLD_FEEDER_3);
            warn(out, s.as_str());
        }
    }
    assert(notes(out@) =~= start + old_feeder_part(fd@));
    let ghost one = notes(out@);
    if contains(fd, "MV probe") && contains(fd, "0% non-zero") {
        bad(out, ZERO_VECTORS);
    }
    let ghost two = notes(out@);
    if contains(fd, "DLSS super sampling is not available") {
        bad(out, NO_DLSS);
    }
    let ghost three = notes(out@);
    if let Some(line) = last_line_with(fd, "stopped:") {
        let s = cat(FEED_STOPPED, trimmed(line.as_str()).as_str());
        bad(out, s.as_str());
    }
    let ghost four = notes(out@);
    assert(four =~= three + feed_stop_part(fd@));
    if contains(fd, "CRASH RECORDED") {
        warn(out, CRASHED);
    }
    assert(notes(out@) =~= one + feed_trouble_part(fd@));
}

proof fn six_parts(
    start: Seq<Note>,
    a: Seq<Note>,
    b: Seq<Note>,
    c: Seq<Note>,
    d: Seq<Note>,
    e: Seq<Note>,
    f: Seq<Note>,
)
    ensures
        start + a + b + c + d + e + f == start + (a + b + c + d + e + f),
{
    assert(start + a + b + c + d + e + f =~= start + (a + b + c + d + e + f));
}

fn say_feed(st: &GameStatus, l: &Logs, out: &mut Vec<Finding>)
    ensures
        notes(final(out)@) == notes(old(out)@) + feed_part(st, l),
{
    let ghost start = notes(out@);
    if st.mode == Mode::Feeder {
        match &l.feed {
            Some(fd) => {
                let log = fd.as_str();
                say_feed_state(log, out);
                ngx_init_failure_for(log, &l.exe_preference, l, out);
                say_host(st, l, out);
                say_feed_trouble(log, out);
                proof {
                    six_parts(
                        start,
                        feed_state_part(fd@),
                        provider_part(fd@),
                        ngx_part(fd@, l.exe_preference, l),
                        host_part(st, l),
                        old_feeder_part(fd@),
                        feed_trouble_part(fd@),
                    );
                }
            },
            None => {
                bad(out, NO_FEED);
            },
        }
    } else {
        assert(start + silent() =~= start);
    }
}

/// The log of ReShade; the second one where there is no first.
pub open spec fn reshade_log(l: &Logs) -> Option<String> {
    match l.reshade {
        Some(s) => Some(s),
        None => l.reshade2,
    }
}

/// All findings, in reading order. Without a log of ReShade there is nothing
/// more to read.
pub open spec fn diagnosis(st: &GameStatus, l: &Logs) -> Seq<Note> {
    compiler_part(l) + model_part(l) + (match reshade_log(l) {
        Some(rs) => reshade_part(st, rs@) + bridge_part(l) + feed_part(st, l),
        None => wrong(NO_LOG@),
    })
}

proof fn all_parts(a: Seq<Note>, b: Seq<Note>, c: Seq<Note>, d: Seq<Note>, e: Seq<Note>)
    ensures
        silent() + a + b + c == a + b + c,
        silent() + a + b + c + d + e == a + b + (c + d + e),
{
    assert(silent() + a + b + c =~= a + b + c);
    assert(silent() + a + b + c + d + e =~= a + b + (c + d + e));
}

/// Findings for a game folder, in reading order.
pub fn diagnose(st: &GameStatus, logs: &Logs) -> (r: Vec<Finding>)
    ensures
        notes(r@) == diagnosis(st, logs),
{
    let mut out: Vec<Finding> = Vec::new();
    assert(notes(out@) =~= silent());
    say_files(logs, &mut out);
    let log = match (&logs.reshade, &logs.reshade2) {
        (Some(s), _) => s,
        (None, Some(s)) => s,
        (None, None) => {
            bad(&mut out, NO_LOG);
            proof {
                all_parts(
                    compiler_part(logs),
                    model_part(logs),
                    wrong(NO_LOG@),
                    silent(),
                    silent(),
                );
            }
            return out;
        },
    };
    say_reshade(st, log.as_str(), &mut out);
    say_bridge(logs, &mut out);
    say_feed(st, logs, &mut out);
    proof {
        all_parts(
            compiler_part(logs),
            model_part(logs),
            reshade_part(st, log@),
            bridge_part(logs),
            feed_part(st, logs),
        );
    }
    out
}

/// Inspect a game's folder and produce the findings, or say why that cannot be
/// done.
pub fn run(found: Found, logs: &Logs) -> (r: Result<Vec<Finding>, InspectError>)
    ensures
        match r {
            Ok(v) => found.error() is None && exists|st: GameStatus|
                found.described_by(&st) && notes(v@) == #[trigger] diagnosis(&st, logs),
            Err(e) => found.error() == Some(e),
        },
{
    match inspect(found) {
        Ok(st) => Ok(diagnose(&st, logs)),
        Err(e) => Err(e),
    }
}

} // verus!
